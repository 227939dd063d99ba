//! The decisions of the device backend: when a device is held, when a
//! dispatch may be submitted, and when the caller has to give up.

use vstd::prelude::*;

verus! {

/// A compiled device module: the name of the resource it was loaded from and
/// its words.
#[derive(Debug, PartialEq, Eq)]
pub struct SpvFile {
    pub name: String,
    pub data: Vec<u32>,
}

/// The mathematical value of an [`SpvFile`].
pub struct SpvFileView {
    pub name: Seq<char>,
    pub data: Seq<u32>,
}

impl View for SpvFile {
    type V = SpvFileView;

    open spec fn view(&self) -> SpvFileView {
        SpvFileView { name: self.name@, data: self.data@ }
    }
}

/// Why the backend gives up. Both are fatal: the caller ends the process.
#[derive(Clone, Copy, Debug, PartialEq, Eq, Structural)]
pub enum BackendError {
    /// No adapter, or no device and queue, could be had.
    DeviceAcquisitionFailed,
    /// The compiled module could not be found.
    ShaderResourceNotFound,
}

/// Where the execution context stands.
#[derive(Clone, Copy, Debug, PartialEq, Eq, Structural)]
pub enum Phase {
    /// No device has been acquired yet.
    Uninitialized,
    /// Device and queue are held and idle.
    Ready,
    /// One dispatch has been submitted and has not completed.
    Dispatching,
}

/// One unit of work for the device: the module, the entry point to run in it,
/// the number of bindings of its pipeline layout and the extent of the
/// dispatch.
#[derive(Debug, PartialEq, Eq)]
pub struct Dispatch {
    pub entry_point: String,
    pub module: SpvFile,
    pub bindings: u32,
    pub extent: (u32, u32, u32),
}

/// The mathematical value of a [`Dispatch`].
pub struct DispatchView {
    pub entry_point: Seq<char>,
    pub module: SpvFileView,
    pub bindings: u32,
    pub extent: (u32, u32, u32),
}

impl View for Dispatch {
    type V = DispatchView;

    open spec fn view(&self) -> DispatchView {
        DispatchView {
            entry_point: self.entry_point@,
            module: self.module@,
            bindings: self.bindings,
            extent: self.extent,
        }
    }
}

/// What the caller of [`Context::launch`] has to do next.
#[derive(Debug, PartialEq, Eq)]
pub enum Action {
    /// Build the pipeline, submit this dispatch, wait until the device is
    /// idle, then call [`Context::complete`].
    Submit(Dispatch),
    /// Another dispatch is in flight: wait for it and ask again.
    Wait,
    /// Give up with this error.
    Abort(BackendError),
}

/// The mathematical value of an [`Action`].
pub enum ActionView {
    Submit(DispatchView),
    Wait,
    Abort(BackendError),
}

impl View for Action {
    type V = ActionView;

    open spec fn view(&self) -> ActionView {
        match self {
            Action::Submit(dispatch) => ActionView::Submit(dispatch@),
            Action::Wait => ActionView::Wait,
            Action::Abort(error) => ActionView::Abort(*error),
        }
    }
}

/// The phase after an attempt to acquire the device. Only the first
/// acquisition does anything, and it gets to `Ready` only with a device.
pub open spec fn acquired(phase: Phase, device_found: bool) -> Phase {
    if phase == Phase::Uninitialized && device_found {
        Phase::Ready
    } else {
        phase
    }
}

/// How an attempt to acquire the device ends: it fails when the context
/// holds none and none was found.
pub open spec fn acquisition(phase: Phase, device_found: bool) -> Result<(), BackendError> {
    if phase == Phase::Uninitialized && !device_found {
        Err(BackendError::DeviceAcquisitionFailed)
    } else {
        Ok(())
    }
}

/// The value of the module that a caller brings, if any.
pub open spec fn module_view(module: Option<SpvFile>) -> Option<SpvFileView> {
    match module {
        Some(m) => Some(m@),
        None => None,
    }
}

/// The dispatch that `launch` builds: the named entry point of the module,
/// no bindings, one workgroup.
pub open spec fn single_dispatch(entry_point: Seq<char>, module: SpvFileView) -> DispatchView {
    DispatchView { entry_point, module, bindings: 0, extent: (1, 1, 1) }
}

/// The phase after a launch request and the action that answers it.
pub open spec fn launched(phase: Phase, entry_point: Seq<char>, module: Option<SpvFileView>) -> (
    Phase,
    ActionView,
) {
    match phase {
        Phase::Uninitialized => (phase, ActionView::Abort(BackendError::DeviceAcquisitionFailed)),
        Phase::Dispatching => (phase, ActionView::Wait),
        Phase::Ready => match module {
            None => (phase, ActionView::Abort(BackendError::ShaderResourceNotFound)),
            Some(m) => (Phase::Dispatching, ActionView::Submit(single_dispatch(entry_point, m))),
        },
    }
}

/// The phase after the device has signalled that it is idle.
pub open spec fn completed(phase: Phase) -> Phase {
    if phase == Phase::Dispatching {
        Phase::Ready
    } else {
        phase
    }
}

/// The execution context of the one device of the process. It decides what
/// happens next; its owner holds the device and the queue and does it.
#[derive(Debug)]
pub struct Context {
    phase: Phase,
}

impl View for Context {
    type V = Phase;

    closed spec fn view(&self) -> Phase {
        self.phase
    }
}

impl Context {
    /// A context that holds no device yet.
    pub fn new() -> (context: Context)
        ensures
            context@ == Phase::Uninitialized,
    {
        Context { phase: Phase::Uninitialized }
    }

    /// Where the context stands.
    pub fn phase(&self) -> (phase: Phase)
        ensures
            phase == self@,
    {
        self.phase
    }

    /// Records the outcome of the request for a device and a queue.
    ///
    /// The first acquisition makes the context ready when a device was found
    /// and fails with `DeviceAcquisitionFailed` when none was. A context that
    /// holds its device already stays as it is.
    pub fn acquire(&mut self, device_found: bool) -> (outcome: Result<(), BackendError>)
        ensures
            final(self)@ == acquired(old(self)@, device_found),
            outcome == acquisition(old(self)@, device_found),
    {
        match self.phase {
            Phase::Uninitialized => {
                if device_found {
                    self.phase = Phase::Ready;
                    Ok(())
                } else {
                    Err(BackendError::DeviceAcquisitionFailed)
                }
            },
            _ => Ok(()),
        }
    }

    /// Answers a request to run `entry_point`, given the module that the
    /// configured path led to, if any.
    ///
    /// A ready context with a module submits one dispatch of extent (1, 1, 1)
    /// with no bindings and is busy from then on. Without a module it aborts
    /// with `ShaderResourceNotFound` and stays ready. While a dispatch is in
    /// flight the answer is `Wait` and nothing changes. Without a device the
    /// answer is to abort with `DeviceAcquisitionFailed`.
    pub fn launch(&mut self, entry_point: &str, module: Option<SpvFile>) -> (action: Action)
        ensures
            (final(self)@, action@) == launched(old(self)@, entry_point@, module_view(module)),
            old(self)@ == Phase::Ready && module is None ==> final(self)@ == Phase::Ready
                && action@ == ActionView::Abort(BackendError::ShaderResourceNotFound),
    {
        match self.phase {
            Phase::Uninitialized => Action::Abort(BackendError::DeviceAcquisitionFailed),
            Phase::Dispatching => Action::Wait,
            Phase::Ready => match module {
                None => Action::Abort(BackendError::ShaderResourceNotFound),
                Some(m) => {
                    self.phase = Phase::Dispatching;
                    Action::Submit(
                        Dispatch {
                            entry_point: String::from_str(entry_point),
                            module: m,
                            bindings: 0,
                            extent: (1, 1, 1),
                        },
                    )
                },
            },
        }
    }

    /// Records that the device has become idle: a busy context is ready
    /// again.
    pub fn complete(&mut self)
        ensures
            final(self)@ == completed(old(self)@),
    {
        match self.phase {
            Phase::Dispatching => {
                self.phase = Phase::Ready;
            },
            _ => {},
        }
    }
}

/// One thing that happens to a context.
pub enum Event {
    /// The request for a device has been answered.
    Acquire(bool),
    /// A caller asks to run an entry point and brings the module, if any.
    Launch(Seq<char>, Option<SpvFileView>),
    /// The device has signalled that it is idle.
    Complete,
}

/// The phase after one event.
pub open spec fn after_event(phase: Phase, event: Event) -> Phase {
    match event {
        Event::Acquire(device_found) => acquired(phase, device_found),
        Event::Launch(entry_point, module) => launched(phase, entry_point, module).0,
        Event::Complete => completed(phase),
    }
}

/// The phase after a history of events, the oldest first.
pub open spec fn after(phase: Phase, events: Seq<Event>) -> Phase
    decreases events.len(),
{
    if events.len() == 0 {
        phase
    } else {
        after_event(after(phase, events.drop_last()), events.last())
    }
}

/// Whether the event at `at` is a launch that is answered with a dispatch to
/// submit.
pub open spec fn submits(phase: Phase, events: Seq<Event>, at: int) -> bool {
    &&& 0 <= at < events.len()
    &&& events[at] matches Event::Launch(entry_point, module)
    &&& launched(after(phase, events.take(at)), entry_point, module).1 is Submit
}

/// A launch submits only from a ready context and leaves it busy; the next
/// launch is then told to wait and changes nothing, and is treated like any
/// launch on a ready context once the device is idle.
pub proof fn lemma_dispatches_are_serialized(
    phase: Phase,
    first_entry: Seq<char>,
    first_module: Option<SpvFileView>,
    second_entry: Seq<char>,
    second_module: Option<SpvFileView>,
)
    ensures
        launched(phase, first_entry, first_module).1 is Submit ==> {
            let busy = launched(phase, first_entry, first_module).0;
            &&& phase == Phase::Ready
            &&& busy == Phase::Dispatching
            &&& launched(busy, second_entry, second_module) == (busy, ActionView::Wait)
            &&& launched(completed(busy), second_entry, second_module) == launched(
                Phase::Ready,
                second_entry,
                second_module,
            )
        },
{
}

/// A busy context stays busy until the device is idle: after the event at
/// `busy_at` left it dispatching, it is still dispatching before the event
/// at `until` unless a completion stands between the two.
proof fn lemma_busy_until_complete(phase: Phase, events: Seq<Event>, busy_at: int, until: int)
    requires
        0 <= busy_at < until <= events.len(),
        after(phase, events.take(busy_at + 1)) == Phase::Dispatching,
        forall|k: int| busy_at < k < until ==> !(events[k] is Complete),
    ensures
        after(phase, events.take(until)) == Phase::Dispatching,
    decreases until - busy_at,
{
    if until > busy_at + 1 {
        lemma_busy_until_complete(phase, events, busy_at, until - 1);
        assert(events.take(until).drop_last() =~= events.take(until - 1));
        assert(events.take(until).last() == events[until - 1]);
    }
}

/// Dispatches never overlap, whatever happens to the context: between two
/// launches that are answered with a dispatch to submit, the device has
/// signalled that it is idle.
pub proof fn lemma_dispatches_never_overlap(
    phase: Phase,
    events: Seq<Event>,
    earlier: int,
    later: int,
)
    requires
        earlier < later,
        submits(phase, events, earlier),
        submits(phase, events, later),
    ensures
        exists|k: int| earlier < k < later && #[trigger] events[k] is Complete,
{
    if forall|k: int| earlier < k < later ==> !(events[k] is Complete) {
        assert(events.take(earlier + 1).drop_last() =~= events.take(earlier));
        assert(events.take(earlier + 1).last() == events[earlier]);
        lemma_busy_until_complete(phase, events, earlier, later);
    }
}

} // verus!
