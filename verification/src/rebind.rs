//! The rebinders: parameters become input bindings, and a declared result is
//! written through an appended output binding.

use crate::error::{value_of, TransformError};
use crate::signature::{FunctionSignature, Parameter, ParameterView, SignatureView};
use crate::token::{
    copy_tokens, find, first_match, push_copies, push_ident, push_punct, push_token, Pattern,
    Probe, Spacing, Token, TokenView,
};
use vstd::prelude::*;

verus! {

/// Whether the device reads a binding or writes it.
#[derive(Clone, Copy, Debug, PartialEq, Eq, Structural)]
pub enum Direction {
    /// The device reads the value.
    Input,
    /// The device writes the value.
    Output,
}

/// One parameter of a device entry point: a value of `value_type` held in
/// device storage under `name`.
#[derive(Debug, PartialEq, Eq)]
pub struct Binding {
    pub direction: Direction,
    pub name: String,
    pub value_type: Vec<Token>,
}

/// The mathematical value of a [`Binding`].
pub struct BindingView {
    pub direction: Direction,
    pub name: Seq<char>,
    pub value_type: Seq<TokenView>,
}

impl DeepView for Binding {
    type V = BindingView;

    open spec fn deep_view(&self) -> BindingView {
        BindingView {
            direction: self.direction,
            name: self.name@,
            value_type: self.value_type.deep_view(),
        }
    }
}

/// A function rebound for the device: every parameter is a storage binding,
/// nothing is returned, and no qualifier marks it as asynchronous.
#[derive(Debug, PartialEq, Eq)]
pub struct DeviceEntry {
    pub qualifiers: Vec<Token>,
    pub name: String,
    pub bindings: Vec<Binding>,
    pub body: Vec<Token>,
}

/// The mathematical value of a [`DeviceEntry`].
pub struct DeviceEntryView {
    pub qualifiers: Seq<TokenView>,
    pub name: Seq<char>,
    pub bindings: Seq<BindingView>,
    pub body: Seq<TokenView>,
}

impl DeepView for DeviceEntry {
    type V = DeviceEntryView;

    open spec fn deep_view(&self) -> DeviceEntryView {
        DeviceEntryView {
            qualifiers: self.qualifiers.deep_view(),
            name: self.name@,
            bindings: self.bindings.deep_view(),
            body: self.body.deep_view(),
        }
    }
}

/// The input binding that stands for a parameter: same name, same type.
pub open spec fn input_binding(param: ParameterView) -> BindingView {
    BindingView { direction: Direction::Input, name: param.name, value_type: param.ty }
}

/// One input binding per parameter, in the order of the parameters.
pub open spec fn input_bindings(params: Seq<ParameterView>) -> Seq<BindingView> {
    Seq::new(params.len(), |i: int| input_binding(params[i]))
}

/// The binding that receives the result: it is called `output` and holds a
/// value of the declared return type.
pub open spec fn output_binding(return_type: Seq<TokenView>) -> BindingView {
    BindingView { direction: Direction::Output, name: "output"@, value_type: return_type }
}

/// Whether one of the bindings is already called `output`.
pub open spec fn names_output(bindings: Seq<BindingView>) -> bool {
    exists|i: int| 0 <= i < bindings.len() && (#[trigger] bindings[i]).name == "output"@
}

/// Where the first `return` stands among the trees of a body.
pub open spec fn return_start(body: Seq<TokenView>) -> int {
    first_match(body, Pattern::Ident("return"@), 0)
}

/// Where the `;` stands that ends the statement begun at `return_start`.
pub open spec fn return_end(body: Seq<TokenView>) -> int {
    first_match(body, Pattern::Punct(';'), return_start(body) + 1)
}

/// Whether the body holds, directly among its trees, a `return`, then at
/// least one tree of expression, then a `;`.
pub open spec fn has_return_statement(body: Seq<TokenView>) -> bool {
    return_start(body) + 1 < return_end(body) < body.len()
}

/// The three trees `* output =` that take the place of `return`.
pub open spec fn assignment_head() -> Seq<TokenView> {
    seq![
        TokenView::Punct('*', Spacing::Alone),
        TokenView::Ident("output"@),
        TokenView::Punct('=', Spacing::Alone),
    ]
}

/// The body with `return <expr>;` turned into `*output = <expr>;`. All other
/// trees keep their place.
pub open spec fn redirected(body: Seq<TokenView>) -> Seq<TokenView> {
    body.subrange(0, return_start(body)) + assignment_head() + body.subrange(
        return_start(body) + 1,
        body.len() as int,
    )
}

/// Whether a qualifier is kept on the device: anything but `async`.
pub open spec fn kept_on_device() -> spec_fn(TokenView) -> bool {
    |token: TokenView| token != TokenView::Ident("async"@)
}

/// The qualifiers without any `async`.
pub open spec fn without_async(qualifiers: Seq<TokenView>) -> Seq<TokenView> {
    qualifiers.filter(kept_on_device())
}

/// What the return rebinder makes of an entry whose function declares the
/// return type `return_type`.
pub open spec fn return_rebinding(
    entry: DeviceEntryView,
    return_type: Seq<TokenView>,
) -> Result<DeviceEntryView, TransformError> {
    if names_output(entry.bindings) {
        Err(TransformError::BindingNameCollision)
    } else if !has_return_statement(entry.body) {
        Err(TransformError::MissingReturnStatement)
    } else {
        Ok(
            DeviceEntryView {
                qualifiers: entry.qualifiers,
                name: entry.name,
                bindings: entry.bindings.push(output_binding(return_type)),
                body: redirected(entry.body),
            },
        )
    }
}

/// The device entry of a signature, or the reason why it has none.
pub open spec fn rebinding(sig: SignatureView) -> Result<DeviceEntryView, TransformError> {
    let plain = DeviceEntryView {
        qualifiers: without_async(sig.qualifiers),
        name: sig.name,
        bindings: input_bindings(sig.params),
        body: sig.body,
    };
    match sig.return_type {
        None => Ok(plain),
        Some(return_type) => return_rebinding(plain, return_type),
    }
}

/// Filtering one more element either appends it or changes nothing.
proof fn lemma_filter_step(s: Seq<TokenView>, keep: spec_fn(TokenView) -> bool, i: int)
    requires
        0 <= i < s.len(),
    ensures
        s.take(i + 1).filter(keep) == if keep(s[i]) {
            s.take(i).filter(keep).push(s[i])
        } else {
            s.take(i).filter(keep)
        },
{
    reveal(Seq::filter);
    assert(s.take(i + 1).drop_last() =~= s.take(i));
}

/// Turns every parameter into an input binding of the same name and type.
pub fn rebind_parameters(params: &Vec<Parameter>) -> (bindings: Vec<Binding>)
    ensures
        bindings.deep_view() == input_bindings(params.deep_view()),
{
    let mut bindings: Vec<Binding> = Vec::new();
    let mut i: usize = 0;
    while i < params.len()
        invariant
            i <= params.len(),
            bindings.len() == i,
            forall|j: int|
                0 <= j < i ==> (#[trigger] bindings@[j]).deep_view() == input_binding(
                    params@[j].deep_view(),
                ),
        decreases params.len() - i,
    {
        bindings.push(
            Binding {
                direction: Direction::Input,
                name: params[i].name.clone(),
                value_type: copy_tokens(&params[i].ty),
            },
        );
        i += 1;
    }
    assert(bindings.deep_view() =~= input_bindings(params.deep_view()));
    bindings
}

/// Drops every `async` from the qualifiers of a declaration.
pub fn strip_async(qualifiers: &Vec<Token>) -> (kept: Vec<Token>)
    ensures
        kept.deep_view() == without_async(qualifiers.deep_view()),
{
    let mut kept: Vec<Token> = Vec::new();
    let mut i: usize = 0;
    proof {
        reveal(Seq::filter);
        assert(kept.deep_view() =~= qualifiers.deep_view().take(0).filter(kept_on_device()));
    }
    while i < qualifiers.len()
        invariant
            i <= qualifiers.len(),
            kept.deep_view() == qualifiers.deep_view().take(i as int).filter(kept_on_device()),
        decreases qualifiers.len() - i,
    {
        proof {
            lemma_filter_step(qualifiers.deep_view(), kept_on_device(), i as int);
        }
        if !qualifiers[i].is_ident("async") {
            push_token(&mut kept, qualifiers[i].clone());
        }
        i += 1;
    }
    assert(qualifiers.deep_view().take(qualifiers.len() as int) =~= qualifiers.deep_view());
    kept
}

/// Whether one of the bindings is called `output`.
fn has_output_name(bindings: &Vec<Binding>) -> (taken: bool)
    ensures
        taken == names_output(bindings.deep_view()),
{
    let reserved = String::from_str("output");
    let mut i: usize = 0;
    while i < bindings.len()
        invariant
            i <= bindings.len(),
            reserved@ == "output"@,
            forall|j: int| 0 <= j < i ==> (#[trigger] bindings.deep_view()[j]).name != "output"@,
        decreases bindings.len() - i,
    {
        if bindings[i].name == reserved {
            assert(bindings.deep_view()[i as int].name == "output"@);
            return true;
        }
        i += 1;
    }
    false
}

/// Redirects the result of a function into the `output` binding.
///
/// The first `return <expr>;` directly in the body becomes `*output = <expr>;`
/// and an output binding of the declared type is appended after the bindings
/// that are there. Fails with `BindingNameCollision` when a binding is already
/// called `output`, else with `MissingReturnStatement` when the body holds no
/// such statement.
pub fn rebind_return(entry: DeviceEntry, return_type: &Vec<Token>) -> (rebound: Result<
    DeviceEntry,
    TransformError,
>)
    ensures
        value_of(rebound) == return_rebinding(entry.deep_view(), return_type.deep_view()),
{
    if has_output_name(&entry.bindings) {
        return Err(TransformError::BindingNameCollision);
    }
    let n = entry.body.len();
    let start = find(&entry.body, &Probe::Ident("return"), 0);
    if start >= n {
        return Err(TransformError::MissingReturnStatement);
    }
    let end = find(&entry.body, &Probe::Punct(';'), start + 1);
    if end >= n || end == start + 1 {
        return Err(TransformError::MissingReturnStatement);
    }
    let mut body: Vec<Token> = Vec::new();
    assert(body.deep_view() =~= Seq::<TokenView>::empty());
    push_copies(&mut body, &entry.body, 0, start);
    push_punct(&mut body, '*', Spacing::Alone);
    push_ident(&mut body, "output");
    push_punct(&mut body, '=', Spacing::Alone);
    push_copies(&mut body, &entry.body, start + 1, n);
    assert(body.deep_view() =~= redirected(entry.body.deep_view()));
    let ghost inputs = entry.bindings.deep_view();
    let output = Binding {
        direction: Direction::Output,
        name: String::from_str("output"),
        value_type: copy_tokens(return_type),
    };
    let mut bindings = entry.bindings;
    bindings.push(output);
    assert(bindings.deep_view() =~= inputs.push(output_binding(return_type.deep_view())));
    Ok(DeviceEntry { qualifiers: entry.qualifiers, name: entry.name, bindings, body })
}

/// Rebinds a function for the device.
///
/// Every parameter becomes an input binding, `async` leaves the qualifiers,
/// and a declared return type is redirected by [`rebind_return`].
pub fn rebind(sig: &FunctionSignature) -> (rebound: Result<DeviceEntry, TransformError>)
    ensures
        value_of(rebound) == rebinding(sig.deep_view()),
{
    let plain = DeviceEntry {
        qualifiers: strip_async(&sig.qualifiers),
        name: sig.name.clone(),
        bindings: rebind_parameters(&sig.params),
        body: copy_tokens(&sig.body),
    };
    match &sig.return_type {
        None => Ok(plain),
        Some(return_type) => rebind_return(plain, return_type),
    }
}

} // verus!
