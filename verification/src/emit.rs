//! The dual-emission engine: one kernel declaration, a device entry point
//! and a host mirror.

use crate::error::{value_of, TransformError};
use crate::rebind::{rebind, rebinding, Binding, BindingView, DeviceEntry, DeviceEntryView, Direction};
use crate::signature::{analysis, analyze, lemma_analysis_shape};
use crate::token::{
    copy_tokens, group_inner, is_group, is_punct, lemma_group_view, push_copies, push_group,
    push_ident, push_punct, push_token, Delimiter, Spacing, Token, TokenView,
};
use vstd::prelude::*;

verus! {

/// The two declarations made from one kernel: the entry point that the device
/// runs and the mirror that the host can call directly.
#[derive(Debug, PartialEq, Eq)]
pub struct EmittedArtifactPair {
    pub device_entry: DeviceEntry,
    pub host_mirror: Vec<Token>,
}

/// The mathematical value of an [`EmittedArtifactPair`].
pub struct PairView {
    pub device_entry: DeviceEntryView,
    pub host_mirror: Seq<TokenView>,
}

impl DeepView for EmittedArtifactPair {
    type V = PairView;

    open spec fn deep_view(&self) -> PairView {
        PairView {
            device_entry: self.device_entry.deep_view(),
            host_mirror: self.host_mirror.deep_view(),
        }
    }
}

/// The attribute `#[spirv(gl_compute)]` that marks a compute entry point.
pub open spec fn entry_tag() -> Seq<TokenView> {
    seq![
        TokenView::Punct('#', Spacing::Alone),
        TokenView::Group(
            Delimiter::Bracket,
            seq![
                TokenView::Ident("spirv"@),
                TokenView::Group(Delimiter::Parenthesis, seq![TokenView::Ident("gl_compute"@)]),
            ],
        ),
    ]
}

/// Whether a tree is the bracketed part of a `#[spirv ...]` attribute.
pub open spec fn is_tag_group(token: TokenView) -> bool {
    &&& is_group(token, Delimiter::Bracket)
    &&& group_inner(token).len() > 0
    &&& group_inner(token)[0] == TokenView::Ident("spirv"@)
}

/// Whether a `#[spirv ...]` attribute stands at `at`.
pub open spec fn tag_at(item: Seq<TokenView>, at: int) -> bool {
    &&& 0 <= at
    &&& at + 1 < item.len()
    &&& is_punct(item[at], '#')
    &&& is_tag_group(item[at + 1])
}

/// Whether the declaration carries a `#[spirv ...]` attribute, as every
/// device entry does.
pub open spec fn is_tagged(item: Seq<TokenView>) -> bool {
    exists|at: int| #[trigger] tag_at(item, at)
}

/// The path `spirv_std::storage_class::Input` or `...::Output`.
pub open spec fn wrapper_path(direction: Direction) -> Seq<TokenView> {
    seq![
        TokenView::Ident("spirv_std"@),
        TokenView::Punct(':', Spacing::Joint),
        TokenView::Punct(':', Spacing::Alone),
        TokenView::Ident("storage_class"@),
        TokenView::Punct(':', Spacing::Joint),
        TokenView::Punct(':', Spacing::Alone),
        TokenView::Ident(
            match direction {
                Direction::Input => "Input"@,
                Direction::Output => "Output"@,
            },
        ),
    ]
}

/// One binding as a parameter: `name: spirv_std::storage_class::Input<type>`,
/// with `Output` for an output binding.
pub open spec fn binding_tokens(binding: BindingView) -> Seq<TokenView> {
    seq![TokenView::Ident(binding.name), TokenView::Punct(':', Spacing::Alone)] + wrapper_path(
        binding.direction,
    ) + seq![TokenView::Punct('<', Spacing::Alone)] + binding.value_type
        + seq![TokenView::Punct('>', Spacing::Alone)]
}

/// The bindings as a parameter list: each as `binding_tokens` spells it, in
/// order, with a comma between two neighbours.
pub open spec fn bindings_tokens(bindings: Seq<BindingView>) -> Seq<TokenView>
    decreases bindings.len(),
{
    if bindings.len() == 0 {
        Seq::empty()
    } else if bindings.len() == 1 {
        binding_tokens(bindings[0])
    } else {
        bindings_tokens(bindings.drop_last()) + seq![TokenView::Punct(',', Spacing::Alone)]
            + binding_tokens(bindings.last())
    }
}

/// The declaration of a device entry: the entry tag, the qualifiers, then
/// `fn name ( bindings ) { body }`.
pub open spec fn device_tokens(entry: DeviceEntryView) -> Seq<TokenView> {
    entry_tag() + entry.qualifiers + seq![
        TokenView::Ident("fn"@),
        TokenView::Ident(entry.name),
        TokenView::Group(Delimiter::Parenthesis, bindings_tokens(entry.bindings)),
        TokenView::Group(Delimiter::Brace, entry.body),
    ]
}

/// The name of the host mirror of the kernel `name`.
pub open spec fn mirror_name(name: Seq<char>) -> Seq<char> {
    name + "__cpu"@
}

/// The host mirror of a declaration whose name stands at `at`: the
/// declaration as it was written, tree for tree, but for that name, which
/// gets the suffix `__cpu`.
pub open spec fn host_mirror(item: Seq<TokenView>, at: int, name: Seq<char>) -> Seq<TokenView> {
    item.update(at, TokenView::Ident(mirror_name(name)))
}

/// The device entry of a declaration, or the reason why it has none. A
/// declaration that is already tagged is refused before anything else, then
/// one that has no signature.
pub open spec fn transformation(item: Seq<TokenView>) -> Result<DeviceEntryView, TransformError> {
    if is_tagged(item) {
        Err(TransformError::AlreadyRebound)
    } else {
        match analysis(item) {
            None => Err(TransformError::MalformedSignature),
            Some(sig) => rebinding(sig),
        }
    }
}

/// The pair of artifacts of a kernel declaration: the device entry that
/// `transformation` gives, and the mirror of the declaration itself. There
/// is no pair where there is no device entry.
pub open spec fn emission(item: Seq<TokenView>) -> Result<PairView, TransformError> {
    match transformation(item) {
        Err(error) => Err(error),
        Ok(device_entry) => Ok(
            PairView {
                device_entry,
                host_mirror: host_mirror(
                    item,
                    analysis(item)->0.qualifiers.len() as int + 1,
                    analysis(item)->0.name,
                ),
            },
        ),
    }
}

/// Whether the declaration carries a `#[spirv ...]` attribute.
pub fn carries_entry_tag(item: &Vec<Token>) -> (tagged: bool)
    ensures
        tagged == is_tagged(item.deep_view()),
{
    let mut i: usize = 0;
    while i < item.len()
        invariant
            i <= item.len(),
            forall|at: int| at < i ==> !#[trigger] tag_at(item.deep_view(), at),
        decreases item.len() - i,
    {
        if i + 1 < item.len() && item[i].is_punct('#') {
            match &item[i + 1] {
                Token::Group(delimiter, inner) => {
                    proof {
                        lemma_group_view(*delimiter, *inner);
                    }
                    if *delimiter == Delimiter::Bracket && inner.len() > 0 && inner[0].is_ident(
                        "spirv",
                    ) {
                        assert(tag_at(item.deep_view(), i as int));
                        return true;
                    }
                },
                _ => {},
            }
        }
        i += 1;
    }
    false
}

/// Appends the trees of one binding.
fn push_binding(out: &mut Vec<Token>, binding: &Binding)
    ensures
        final(out).deep_view() == old(out).deep_view() + binding_tokens(binding.deep_view()),
{
    push_token(out, Token::Ident(binding.name.clone()));
    push_punct(out, ':', Spacing::Alone);
    push_ident(out, "spirv_std");
    push_punct(out, ':', Spacing::Joint);
    push_punct(out, ':', Spacing::Alone);
    push_ident(out, "storage_class");
    push_punct(out, ':', Spacing::Joint);
    push_punct(out, ':', Spacing::Alone);
    match binding.direction {
        Direction::Input => push_ident(out, "Input"),
        Direction::Output => push_ident(out, "Output"),
    }
    push_punct(out, '<', Spacing::Alone);
    push_copies(out, &binding.value_type, 0, binding.value_type.len());
    push_punct(out, '>', Spacing::Alone);
    assert(binding.value_type.deep_view().subrange(0, binding.value_type.len() as int)
        =~= binding.value_type.deep_view());
    assert(out.deep_view() =~= old(out).deep_view() + binding_tokens(binding.deep_view()));
}

/// Spells bindings as a parameter list.
pub fn render_bindings(bindings: &Vec<Binding>) -> (list: Vec<Token>)
    ensures
        list.deep_view() == bindings_tokens(bindings.deep_view()),
{
    let mut list: Vec<Token> = Vec::new();
    assert(list.deep_view() =~= Seq::<TokenView>::empty());
    let mut i: usize = 0;
    while i < bindings.len()
        invariant
            i <= bindings.len(),
            list.deep_view() == bindings_tokens(bindings.deep_view().take(i as int)),
        decreases bindings.len() - i,
    {
        if i > 0 {
            push_punct(&mut list, ',', Spacing::Alone);
        }
        push_binding(&mut list, &bindings[i]);
        proof {
            let upto = bindings.deep_view().take(i + 1);
            assert(upto.drop_last() =~= bindings.deep_view().take(i as int));
            assert(upto.last() == bindings[i as int].deep_view());
            assert(list.deep_view() =~= bindings_tokens(upto));
        }
        i += 1;
    }
    assert(bindings.deep_view().take(bindings.len() as int) =~= bindings.deep_view());
    list
}

impl DeviceEntry {
    /// The declaration of this entry point as token trees.
    pub fn to_tokens(&self) -> (tokens: Vec<Token>)
        ensures
            tokens.deep_view() == device_tokens(self.deep_view()),
    {
        let mut tag_inner: Vec<Token> = Vec::new();
        assert(tag_inner.deep_view() =~= Seq::<TokenView>::empty());
        push_ident(&mut tag_inner, "gl_compute");
        assert(tag_inner.deep_view() =~= seq![TokenView::Ident("gl_compute"@)]);
        let mut tag: Vec<Token> = Vec::new();
        assert(tag.deep_view() =~= Seq::<TokenView>::empty());
        push_ident(&mut tag, "spirv");
        push_group(&mut tag, Delimiter::Parenthesis, tag_inner);
        assert(tag.deep_view() =~= seq![
            TokenView::Ident("spirv"@),
            TokenView::Group(Delimiter::Parenthesis, seq![TokenView::Ident("gl_compute"@)]),
        ]);
        let mut tokens: Vec<Token> = Vec::new();
        assert(tokens.deep_view() =~= Seq::<TokenView>::empty());
        push_punct(&mut tokens, '#', Spacing::Alone);
        push_group(&mut tokens, Delimiter::Bracket, tag);
        assert(tokens.deep_view() =~= entry_tag());
        push_copies(&mut tokens, &self.qualifiers, 0, self.qualifiers.len());
        push_ident(&mut tokens, "fn");
        push_token(&mut tokens, Token::Ident(self.name.clone()));
        push_group(&mut tokens, Delimiter::Parenthesis, render_bindings(&self.bindings));
        push_group(&mut tokens, Delimiter::Brace, copy_tokens(&self.body));
        assert(self.qualifiers.deep_view().subrange(0, self.qualifiers.len() as int)
            =~= self.qualifiers.deep_view());
        assert(tokens.deep_view() =~= device_tokens(self.deep_view()));
        tokens
    }
}

/// A copy of `item` in which the tree at `at` is replaced by `token`.
pub fn replaced(item: &Vec<Token>, at: usize, token: Token) -> (changed: Vec<Token>)
    requires
        at < item.len(),
    ensures
        changed.deep_view() == item.deep_view().update(at as int, token.deep_view()),
{
    let mut changed: Vec<Token> = Vec::new();
    assert(changed.deep_view() =~= Seq::<TokenView>::empty());
    push_copies(&mut changed, item, 0, at);
    push_token(&mut changed, token);
    push_copies(&mut changed, item, at + 1, item.len());
    assert(changed.deep_view() =~= item.deep_view().update(at as int, token.deep_view()));
    changed
}

/// Makes the device entry and the host mirror of one kernel declaration.
///
/// The device entry is tagged, takes every parameter as an input binding,
/// writes a declared result through the appended output binding and is not
/// asynchronous. The host mirror is the declaration itself under the name
/// with the suffix `__cpu`. The declaration is refused, in this order, when
/// it is tagged already, when it is no function declaration with a readable
/// parameter list, when it declares a return type and has a parameter called
/// `output`, and when it declares a return type and holds no return
/// statement.
pub fn emit(item: &Vec<Token>) -> (pair: Result<EmittedArtifactPair, TransformError>)
    ensures
        value_of(pair) == emission(item.deep_view()),
{
    if carries_entry_tag(item) {
        return Err(TransformError::AlreadyRebound);
    }
    let sig = match analyze(item) {
        Ok(sig) => sig,
        Err(error) => {
            return Err(error);
        },
    };
    let device_entry = match rebind(&sig) {
        Ok(entry) => entry,
        Err(error) => {
            return Err(error);
        },
    };
    let mut name = sig.name.clone();
    name.append("__cpu");
    let at = sig.qualifiers.len();
    proof {
        lemma_analysis_shape(item.deep_view());
        assert(sig.deep_view().qualifiers.len() == at);
        assert(item.deep_view().len() == item.len());
    }
    let host_mirror = replaced(item, at + 1, Token::Ident(name));
    Ok(EmittedArtifactPair { device_entry, host_mirror })
}

} // verus!
