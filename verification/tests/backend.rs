use gpgpu::backend::{Action, BackendError, Context, Dispatch, Phase, SpvFile};

fn module() -> SpvFile {
    SpvFile { name: "kernels.spv".to_string(), data: vec![0x0723_0203, 0x0001_0000, 7] }
}

fn ready() -> Context {
    let mut context = Context::new();
    assert_eq!(context.acquire(true), Ok(()));
    context
}

#[test]
fn new_context_holds_no_device() {
    assert_eq!(Context::new().phase(), Phase::Uninitialized);
}

#[test]
fn first_acquisition_makes_the_context_ready() {
    let mut context = Context::new();
    assert_eq!(context.acquire(true), Ok(()));
    assert_eq!(context.phase(), Phase::Ready);
}

#[test]
fn acquisition_without_device_fails() {
    let mut context = Context::new();
    assert_eq!(context.acquire(false), Err(BackendError::DeviceAcquisitionFailed));
    assert_eq!(context.phase(), Phase::Uninitialized);
    assert_eq!(context.acquire(true), Ok(()));
    assert_eq!(context.phase(), Phase::Ready);
}

#[test]
fn later_acquisitions_change_nothing() {
    let mut context = ready();
    assert_eq!(context.acquire(false), Ok(()));
    assert_eq!(context.phase(), Phase::Ready);
    assert!(matches!(context.launch("f", Some(module())), Action::Submit(_)));
    assert_eq!(context.acquire(false), Ok(()));
    assert_eq!(context.acquire(true), Ok(()));
    assert_eq!(context.phase(), Phase::Dispatching);
}

#[test]
fn launch_without_module_aborts_and_frees_the_context() {
    let mut context = ready();
    assert_eq!(context.launch("f", None), Action::Abort(BackendError::ShaderResourceNotFound));
    assert_eq!(context.phase(), Phase::Ready);
    assert!(matches!(context.launch("f", Some(module())), Action::Submit(_)));
}

#[test]
fn launch_submits_one_dispatch_without_bindings() {
    let mut context = ready();
    let expected = Dispatch {
        entry_point: "calculate".to_string(),
        module: module(),
        bindings: 0,
        extent: (1, 1, 1),
    };
    assert_eq!(context.launch("calculate", Some(module())), Action::Submit(expected));
    assert_eq!(context.phase(), Phase::Dispatching);
}

#[test]
fn launch_without_device_aborts() {
    let mut context = Context::new();
    assert_eq!(
        context.launch("f", Some(module())),
        Action::Abort(BackendError::DeviceAcquisitionFailed)
    );
    assert_eq!(context.launch("f", None), Action::Abort(BackendError::DeviceAcquisitionFailed));
    assert_eq!(context.phase(), Phase::Uninitialized);
}

#[test]
fn second_launch_waits_for_the_first() {
    let mut context = ready();
    assert!(matches!(context.launch("first", Some(module())), Action::Submit(_)));
    assert_eq!(context.launch("second", Some(module())), Action::Wait);
    assert_eq!(context.launch("second", None), Action::Wait);
    assert_eq!(context.phase(), Phase::Dispatching);
    context.complete();
    assert_eq!(context.phase(), Phase::Ready);
    match context.launch("second", Some(module())) {
        Action::Submit(dispatch) => assert_eq!(dispatch.entry_point, "second"),
        other => panic!("not submitted: {:?}", other),
    }
}

#[test]
fn completion_only_ends_a_dispatch() {
    let mut context = Context::new();
    context.complete();
    assert_eq!(context.phase(), Phase::Uninitialized);
    let mut context = ready();
    context.complete();
    assert_eq!(context.phase(), Phase::Ready);
}

#[test]
fn every_launch_builds_its_dispatch_anew() {
    let mut context = ready();
    for name in ["a", "b", "c"] {
        match context.launch(name, Some(module())) {
            Action::Submit(dispatch) => {
                assert_eq!(dispatch.entry_point, name);
                assert_eq!(dispatch.module, module());
                assert_eq!(dispatch.bindings, 0);
                assert_eq!(dispatch.extent, (1, 1, 1));
            },
            other => panic!("not submitted: {:?}", other),
        }
        context.complete();
    }
}

#[test]
fn main_items_are_reachable_from_the_crate_root() {
    let mut context = gpgpu::Context::new();
    assert_eq!(context.acquire(true), Ok(()));
    let module = gpgpu::SpvFile { name: "m".to_string(), data: Vec::new() };
    assert!(matches!(context.launch("f", Some(module)), Action::Submit(_)));
    let nothing: Vec<gpgpu::Token> = Vec::new();
    assert_eq!(gpgpu::cpu_only(&nothing, gpgpu::BuildTarget::Host), nothing);
    assert_eq!(gpgpu::entry(&nothing, gpgpu::BuildTarget::Device), Ok(Vec::new()));
    assert_eq!(
        gpgpu::gpu(&nothing, gpgpu::BuildTarget::Device),
        Err(gpgpu::TransformError::MalformedSignature)
    );
    assert_eq!(
        gpgpu::expand(gpgpu::Marker::HostOnly, &nothing, gpgpu::BuildTarget::Host),
        Ok(Vec::new())
    );
}
