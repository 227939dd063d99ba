//! The three markers and what each makes of a declaration on the host and
//! on the device.

use crate::emit::{device_tokens, emission, emit};
use crate::error::{value_of, TransformError};
use crate::signature::lemma_analysis_shape;
use crate::token::{
    copy_tokens, find, first_match, group_inner, is_group, lemma_first_match, lemma_group_view,
    push_copies, push_group, push_ident, push_punct, push_token, Delimiter, Pattern, Probe,
    Spacing, Token, TokenView,
};
use vstd::prelude::*;

verus! {

/// The build configuration a declaration is expanded for.
#[derive(Clone, Copy, Debug, PartialEq, Eq, Structural)]
pub enum BuildTarget {
    /// Code for the CPU: kernels become a launcher and a mirror, and
    /// host-only declarations are kept.
    Host,
    /// Code for the device module: kernels become entry points, and
    /// everything that belongs to the host is left out.
    Device,
}

/// The annotation on a declaration. A declaration carries one of them.
#[derive(Clone, Copy, Debug, PartialEq, Eq, Structural)]
pub enum Marker {
    /// The startup function of the host program.
    Entry,
    /// A declaration that exists on the host only.
    HostOnly,
    /// A function that runs on the device.
    Kernel,
}

/// The statement `gpgpu_backend::init();`.
pub open spec fn init_call() -> Seq<TokenView> {
    seq![
        TokenView::Ident("gpgpu_backend"@),
        TokenView::Punct(':', Spacing::Joint),
        TokenView::Punct(':', Spacing::Alone),
        TokenView::Ident("init"@),
        TokenView::Group(Delimiter::Parenthesis, Seq::empty()),
        TokenView::Punct(';', Spacing::Alone),
    ]
}

/// The text of the string literal that spells `name`.
pub open spec fn quoted(name: Seq<char>) -> Seq<char> {
    "\""@ + name + "\""@
}

/// The statement `gpgpu_backend::CONTEXT.lock().unwrap().launch("name");`.
pub open spec fn dispatch_call(name: Seq<char>) -> Seq<TokenView> {
    seq![
        TokenView::Ident("gpgpu_backend"@),
        TokenView::Punct(':', Spacing::Joint),
        TokenView::Punct(':', Spacing::Alone),
        TokenView::Ident("CONTEXT"@),
        TokenView::Punct('.', Spacing::Alone),
        TokenView::Ident("lock"@),
        TokenView::Group(Delimiter::Parenthesis, Seq::empty()),
        TokenView::Punct('.', Spacing::Alone),
        TokenView::Ident("unwrap"@),
        TokenView::Group(Delimiter::Parenthesis, Seq::empty()),
        TokenView::Punct('.', Spacing::Alone),
        TokenView::Ident("launch"@),
        TokenView::Group(Delimiter::Parenthesis, seq![TokenView::Literal(quoted(name))]),
        TokenView::Punct(';', Spacing::Alone),
    ]
}

/// The declaration with `statements` put first in the braced block at `at`.
/// Every other tree, and the rest of the block, stays as it is.
pub open spec fn prepended(
    item: Seq<TokenView>,
    at: int,
    statements: Seq<TokenView>,
) -> Seq<TokenView> {
    item.update(at, TokenView::Group(Delimiter::Brace, statements + group_inner(item[at])))
}

/// The host launcher of the kernel `name`: the declaration under its own
/// name, whose body, the last tree, first dispatches the device entry of that
/// name and then does what the function did.
pub open spec fn host_launcher(item: Seq<TokenView>, name: Seq<char>) -> Seq<TokenView> {
    prepended(item, item.len() - 1, dispatch_call(name))
}

/// What the startup marker makes of a declaration: on the host the
/// declaration with the initialisation call first in its first braced block,
/// on the device nothing.
pub open spec fn entry_expansion(item: Seq<TokenView>, target: BuildTarget) -> Result<
    Seq<TokenView>,
    TransformError,
> {
    let block = first_match(item, Pattern::Group(Delimiter::Brace), 0);
    match target {
        BuildTarget::Device => Ok(Seq::empty()),
        BuildTarget::Host => if block < item.len() {
            Ok(prepended(item, block, init_call()))
        } else {
            Err(TransformError::MalformedSignature)
        },
    }
}

/// What the host-only marker makes of a declaration: on the host the
/// declaration, on the device nothing.
pub open spec fn host_only_expansion(item: Seq<TokenView>, target: BuildTarget) -> Seq<
    TokenView,
> {
    match target {
        BuildTarget::Host => item,
        BuildTarget::Device => Seq::empty(),
    }
}

/// What the kernel marker makes of a declaration: on the device the entry
/// point alone, on the host the launcher followed by the mirror. A
/// declaration without a device entry has no expansion on either.
pub open spec fn kernel_expansion(item: Seq<TokenView>, target: BuildTarget) -> Result<
    Seq<TokenView>,
    TransformError,
> {
    match emission(item) {
        Err(error) => Err(error),
        Ok(pair) => match target {
            BuildTarget::Device => Ok(device_tokens(pair.device_entry)),
            BuildTarget::Host => Ok(
                host_launcher(item, pair.device_entry.name) + pair.host_mirror,
            ),
        },
    }
}

/// What a marker makes of the declaration that carries it.
pub open spec fn expansion(marker: Marker, item: Seq<TokenView>, target: BuildTarget) -> Result<
    Seq<TokenView>,
    TransformError,
> {
    match marker {
        Marker::Entry => entry_expansion(item, target),
        Marker::HostOnly => Ok(host_only_expansion(item, target)),
        Marker::Kernel => kernel_expansion(item, target),
    }
}

/// Puts `statements` first in the braced block at `at`.
fn prepend_statements(item: &Vec<Token>, at: usize, statements: Vec<Token>) -> (changed: Vec<Token>)
    requires
        at < item.len(),
        is_group(item.deep_view()[at as int], Delimiter::Brace),
    ensures
        changed.deep_view() == prepended(item.deep_view(), at as int, statements.deep_view()),
{
    let mut block = statements;
    match &item[at] {
        Token::Group(delimiter, inner) => {
            proof {
                lemma_group_view(*delimiter, *inner);
            }
            push_copies(&mut block, inner, 0, inner.len());
            assert(inner.deep_view().subrange(0, inner.len() as int) =~= inner.deep_view());
        },
        _ => {},
    }
    let mut changed: Vec<Token> = Vec::new();
    assert(changed.deep_view() =~= Seq::<TokenView>::empty());
    push_copies(&mut changed, item, 0, at);
    push_group(&mut changed, Delimiter::Brace, block);
    push_copies(&mut changed, item, at + 1, item.len());
    assert(changed.deep_view() =~= prepended(
        item.deep_view(),
        at as int,
        statements.deep_view(),
    ));
    changed
}

/// Appends the empty argument list `()`.
fn push_unit(out: &mut Vec<Token>)
    ensures
        final(out).deep_view() == old(out).deep_view().push(
            TokenView::Group(Delimiter::Parenthesis, Seq::empty()),
        ),
{
    let inner: Vec<Token> = Vec::new();
    assert(inner.deep_view() =~= Seq::<TokenView>::empty());
    push_group(out, Delimiter::Parenthesis, inner);
}

/// Spells the statement that initialises the backend.
fn make_init_call() -> (call: Vec<Token>)
    ensures
        call.deep_view() == init_call(),
{
    let mut call: Vec<Token> = Vec::new();
    assert(call.deep_view() =~= Seq::<TokenView>::empty());
    push_ident(&mut call, "gpgpu_backend");
    push_punct(&mut call, ':', Spacing::Joint);
    push_punct(&mut call, ':', Spacing::Alone);
    push_ident(&mut call, "init");
    push_unit(&mut call);
    push_punct(&mut call, ';', Spacing::Alone);
    assert(call.deep_view() =~= init_call());
    call
}

/// Spells the statement that dispatches the entry point `name`.
fn make_dispatch_call(name: &String) -> (call: Vec<Token>)
    ensures
        call.deep_view() == dispatch_call(name@),
{
    let mut text = String::from_str("\"");
    text.append(name.as_str());
    text.append("\"");
    let mut argument: Vec<Token> = Vec::new();
    assert(argument.deep_view() =~= Seq::<TokenView>::empty());
    push_token(&mut argument, Token::Literal(text));
    assert(argument.deep_view() =~= seq![TokenView::Literal(quoted(name@))]);
    let mut call: Vec<Token> = Vec::new();
    assert(call.deep_view() =~= Seq::<TokenView>::empty());
    push_ident(&mut call, "gpgpu_backend");
    push_punct(&mut call, ':', Spacing::Joint);
    push_punct(&mut call, ':', Spacing::Alone);
    push_ident(&mut call, "CONTEXT");
    push_punct(&mut call, '.', Spacing::Alone);
    push_ident(&mut call, "lock");
    push_unit(&mut call);
    push_punct(&mut call, '.', Spacing::Alone);
    push_ident(&mut call, "unwrap");
    push_unit(&mut call);
    push_punct(&mut call, '.', Spacing::Alone);
    push_ident(&mut call, "launch");
    push_group(&mut call, Delimiter::Parenthesis, argument);
    push_punct(&mut call, ';', Spacing::Alone);
    assert(call.deep_view() =~= dispatch_call(name@));
    call
}

/// Expands the startup function of the host program.
///
/// On the host the backend is initialised first: the call stands as the
/// first statement of the first braced block, and a declaration without a
/// block is refused as malformed. On the device nothing is left of the
/// function.
pub fn entry(item: &Vec<Token>, target: BuildTarget) -> (expanded: Result<
    Vec<Token>,
    TransformError,
>)
    ensures
        value_of(expanded) == entry_expansion(item.deep_view(), target),
{
    match target {
        BuildTarget::Device => {
            let nothing: Vec<Token> = Vec::new();
            assert(nothing.deep_view() =~= Seq::<TokenView>::empty());
            Ok(nothing)
        },
        BuildTarget::Host => {
            let block = find(item, &Probe::Group(Delimiter::Brace), 0);
            if block >= item.len() {
                return Err(TransformError::MalformedSignature);
            }
            proof {
                lemma_first_match(item.deep_view(), Pattern::Group(Delimiter::Brace), 0);
            }
            Ok(prepend_statements(item, block, make_init_call()))
        },
    }
}

/// Expands a host-only declaration: kept as it is on the host, left out on
/// the device.
pub fn cpu_only(item: &Vec<Token>, target: BuildTarget) -> (expanded: Vec<Token>)
    ensures
        expanded.deep_view() == host_only_expansion(item.deep_view(), target),
{
    match target {
        BuildTarget::Host => copy_tokens(item),
        BuildTarget::Device => {
            let nothing: Vec<Token> = Vec::new();
            assert(nothing.deep_view() =~= Seq::<TokenView>::empty());
            nothing
        },
    }
}

/// Expands a kernel.
///
/// On the device the result is the entry point of [`emit`]. On the host the
/// result is the launcher, which dispatches the entry point by name before
/// it does what the function did, followed by the mirror of [`emit`]. On
/// both the declaration is refused with the error of [`emit`] when it has no
/// device entry.
pub fn gpu(item: &Vec<Token>, target: BuildTarget) -> (expanded: Result<
    Vec<Token>,
    TransformError,
>)
    ensures
        value_of(expanded) == kernel_expansion(item.deep_view(), target),
{
    let pair = match emit(item) {
        Ok(pair) => pair,
        Err(error) => {
            return Err(error);
        },
    };
    match target {
        BuildTarget::Device => Ok(pair.device_entry.to_tokens()),
        BuildTarget::Host => {
            proof {
                lemma_analysis_shape(item.deep_view());
                assert(item.deep_view().len() == item.len());
            }
            let call = make_dispatch_call(&pair.device_entry.name);
            let mut expanded = prepend_statements(item, item.len() - 1, call);
            push_copies(&mut expanded, &pair.host_mirror, 0, pair.host_mirror.len());
            assert(pair.host_mirror.deep_view().subrange(0, pair.host_mirror.len() as int)
                =~= pair.host_mirror.deep_view());
            Ok(expanded)
        },
    }
}

/// Expands a declaration by the marker it carries.
pub fn expand(marker: Marker, item: &Vec<Token>, target: BuildTarget) -> (expanded: Result<
    Vec<Token>,
    TransformError,
>)
    ensures
        value_of(expanded) == expansion(marker, item.deep_view(), target),
{
    match marker {
        Marker::Entry => entry(item, target),
        Marker::HostOnly => Ok(cpu_only(item, target)),
        Marker::Kernel => gpu(item, target),
    }
}

} // verus!
