//! What holds of every kernel expansion.

use crate::emit::{device_tokens, emission, entry_tag, is_tagged, mirror_name, tag_at, transformation};
use crate::error::TransformError;
use crate::marker::{dispatch_call, host_launcher, kernel_expansion, BuildTarget};
use crate::rebind::{
    has_return_statement, input_binding, input_bindings, kept_on_device, names_output,
    output_binding, redirected, DeviceEntryView,
};
use crate::signature::{
    analysis, arrow_at, first_arrow, gathered, lemma_analysis_shape, lemma_first_arrow,
    return_type_of, without_return_type, SignatureView,
};
use crate::token::{first_match, fits, lemma_first_match, Delimiter, Pattern, TokenView};
use vstd::prelude::*;

verus! {

/// A kernel with a return type has one binding more than it has parameters:
/// the parameters become input bindings of the same names and types in the
/// same order, and the output binding of the return type comes last. Its
/// body is the body of the function with the result redirected.
pub proof fn lemma_returning_kernel_bindings(item: Seq<TokenView>)
    requires
        transformation(item) is Ok,
        analysis(item)->0.return_type is Some,
    ensures
        ({
            let sig = analysis(item)->0;
            let entry = transformation(item)->Ok_0;
            &&& entry.bindings.len() == sig.params.len() + 1
            &&& entry.bindings.last() == output_binding(sig.return_type->0)
            &&& forall|i: int|
                0 <= i < sig.params.len() ==> #[trigger] entry.bindings[i] == input_binding(
                    sig.params[i],
                )
            &&& entry.body == redirected(sig.body)
        }),
{
}

/// A kernel without a return type has as many bindings as parameters, all of
/// them input bindings of the same names and types in the same order, and
/// its body is the body of the function.
pub proof fn lemma_plain_kernel_bindings(item: Seq<TokenView>)
    requires
        transformation(item) is Ok,
        analysis(item)->0.return_type is None,
    ensures
        ({
            let sig = analysis(item)->0;
            let entry = transformation(item)->Ok_0;
            &&& entry.bindings.len() == sig.params.len()
            &&& forall|i: int|
                0 <= i < sig.params.len() ==> #[trigger] entry.bindings[i] == input_binding(
                    sig.params[i],
                )
            &&& entry.body == sig.body
        }),
{
}

/// A device entry is not rebound again: its declaration is refused as
/// already rebound, whatever the build.
pub proof fn lemma_rebound_is_refused(item: Seq<TokenView>, target: BuildTarget)
    requires
        transformation(item) is Ok,
    ensures
        transformation(device_tokens(transformation(item)->Ok_0)) == Err::<
            DeviceEntryView,
            TransformError,
        >(TransformError::AlreadyRebound),
        kernel_expansion(device_tokens(transformation(item)->Ok_0), target) == Err::<
            Seq<TokenView>,
            TransformError,
        >(TransformError::AlreadyRebound),
{
    let tokens = device_tokens(transformation(item)->Ok_0);
    assert(tokens[0] == entry_tag()[0]);
    assert(tokens[1] == entry_tag()[1]);
    assert(tag_at(tokens, 0));
}

/// A function that declares a return type and holds no return statement has
/// no expansion: it is refused for the missing statement, unless a parameter
/// called `output` has it refused before.
pub proof fn lemma_missing_return_is_refused(item: Seq<TokenView>, target: BuildTarget)
    requires
        !is_tagged(item),
        analysis(item) is Some,
        analysis(item)->0.return_type is Some,
        !has_return_statement(analysis(item)->0.body),
    ensures
        kernel_expansion(item, target) == Err::<Seq<TokenView>, TransformError>(
            if names_output(input_bindings(analysis(item)->0.params)) {
                TransformError::BindingNameCollision
            } else {
                TransformError::MissingReturnStatement
            },
        ),
{
}

/// The two artifacts of a kernel share its name: the device entry keeps it,
/// and the host mirror is the declaration itself with the suffix `__cpu` on
/// the name and no other change.
pub proof fn lemma_pair_shares_name(item: Seq<TokenView>)
    requires
        emission(item) is Ok,
    ensures
        ({
            let sig = analysis(item)->0;
            let at = sig.qualifiers.len() as int + 1;
            let pair = emission(item)->Ok_0;
            &&& pair.device_entry.name == sig.name
            &&& item[at] == TokenView::Ident(sig.name)
            &&& pair.host_mirror.len() == item.len()
            &&& pair.host_mirror[at] == TokenView::Ident(mirror_name(sig.name))
            &&& forall|i: int| 0 <= i < item.len() && i != at ==> pair.host_mirror[i] == item[i]
        }),
{
    lemma_analysis_shape(item);
}

/// No device entry is asynchronous: `async` is not among its qualifiers.
pub proof fn lemma_device_entry_is_synchronous(item: Seq<TokenView>)
    requires
        transformation(item) is Ok,
    ensures
        !transformation(item)->Ok_0.qualifiers.contains(TokenView::Ident("async"@)),
{
    let sig = analysis(item)->0;
    let kept = transformation(item)->Ok_0.qualifiers;
    assert(kept == sig.qualifiers.filter(kept_on_device()));
    assert forall|i: int| 0 <= i < kept.len() implies kept[i] != TokenView::Ident("async"@) by {
        sig.qualifiers.lemma_filter_pred(kept_on_device(), i);
    }
}

/// Both builds refuse the same declarations with the same error, and a
/// declaration that one of them expands the other expands too.
pub proof fn lemma_builds_agree_on_refusal(item: Seq<TokenView>)
    ensures
        kernel_expansion(item, BuildTarget::Host) is Err <==> kernel_expansion(
            item,
            BuildTarget::Device,
        ) is Err,
        kernel_expansion(item, BuildTarget::Host) is Err ==> kernel_expansion(
            item,
            BuildTarget::Host,
        )->Err_0 == kernel_expansion(item, BuildTarget::Device)->Err_0,
{
}

/// Replacing a tree that is no punctuation by another that is none moves no
/// arrow.
proof fn lemma_update_keeps_arrows(item: Seq<TokenView>, at: int, token: TokenView, from: int)
    requires
        0 <= at < item.len(),
        0 <= from <= item.len(),
        !(item[at] is Punct),
        !(token is Punct),
    ensures
        first_arrow(item.update(at, token), from) == first_arrow(item, from),
    decreases item.len() - from,
{
    let changed = item.update(at, token);
    if from < item.len() {
        assert(arrow_at(changed, from) == arrow_at(item, from));
        if !arrow_at(item, from) {
            lemma_update_keeps_arrows(item, at, token, from + 1);
        }
    }
}

/// Replacing a tree does not move the first fit of a pattern when the new
/// tree fits as the old one did, or when it stands behind the first fit and
/// does not fit.
proof fn lemma_update_keeps_first_match(
    item: Seq<TokenView>,
    at: int,
    token: TokenView,
    pattern: Pattern,
    from: int,
)
    requires
        0 <= at < item.len(),
        0 <= from <= item.len(),
        fits(item[at], pattern) == fits(token, pattern) || (first_match(item, pattern, from) < at
            && !fits(token, pattern)),
    ensures
        first_match(item.update(at, token), pattern, from) == first_match(item, pattern, from),
    decreases item.len() - from,
{
    let changed = item.update(at, token);
    if from < item.len() {
        lemma_first_match(item, pattern, from);
        if from == at {
            if !fits(item[from], pattern) {
                lemma_update_keeps_first_match(item, at, token, pattern, from + 1);
            }
        } else {
            assert(changed[from] == item[from]);
            if !fits(item[from], pattern) {
                lemma_update_keeps_first_match(item, at, token, pattern, from + 1);
            }
        }
    }
}

/// The host mirror is a declaration of the same function under another
/// name: it has the signature of the kernel but for the name, which carries
/// the suffix `__cpu`.
pub proof fn lemma_mirror_keeps_the_signature(item: Seq<TokenView>)
    requires
        emission(item) is Ok,
    ensures
        analysis(emission(item)->Ok_0.host_mirror) == Some(
            SignatureView { name: mirror_name(analysis(item)->0.name), ..analysis(item)->0 },
        ),
{
    let sig = analysis(item)->0;
    let at = sig.qualifiers.len() as int + 1;
    let token = TokenView::Ident(mirror_name(sig.name));
    let mirror = item.update(at, token);
    assert(emission(item)->Ok_0.host_mirror == mirror);
    lemma_analysis_shape(item);
    lemma_first_arrow(item, 0);
    lemma_update_keeps_arrows(item, at, token, 0);
    let rest = without_return_type(item);
    let changed = without_return_type(mirror);
    let word = Pattern::Ident("fn"@);
    let group = Pattern::Group(Delimiter::Parenthesis);
    lemma_first_match(rest, word, 0);
    assert(rest.len() == at + 3);
    assert(changed =~= rest.update(at, token));
    assert(return_type_of(mirror) =~= return_type_of(item)) by {
        if return_type_of(item) is Some {
            assert(return_type_of(mirror)->0 =~= return_type_of(item)->0);
        }
    }
    assert(!fits(token, word)) by {
        reveal_strlit("fn");
        reveal_strlit("__cpu");
        assert(mirror_name(sig.name).len() >= 5);
        assert("fn"@.len() == 2);
    }
    lemma_update_keeps_first_match(rest, at, token, word, 0);
    lemma_update_keeps_first_match(rest, at, token, group, 0);
    assert(gathered(changed) == gathered(rest));
    assert(changed.subrange(0, at - 1) =~= rest.subrange(0, at - 1));
}

/// The host launcher is a declaration of the same function under the same
/// name: it has the signature of the kernel but for the body, which begins
/// with the dispatch of the entry point of that name and goes on as the
/// body of the kernel does.
pub proof fn lemma_launcher_keeps_the_signature(item: Seq<TokenView>)
    requires
        emission(item) is Ok,
    ensures
        analysis(host_launcher(item, analysis(item)->0.name)) == Some(
            SignatureView {
                body: dispatch_call(analysis(item)->0.name) + analysis(item)->0.body,
                ..analysis(item)->0
            },
        ),
{
    let sig = analysis(item)->0;
    let at = item.len() - 1;
    let token = TokenView::Group(Delimiter::Brace, dispatch_call(sig.name) + sig.body);
    let launcher = item.update(at, token);
    lemma_analysis_shape(item);
    assert(host_launcher(item, sig.name) == launcher);
    lemma_first_arrow(item, 0);
    lemma_update_keeps_arrows(item, at, token, 0);
    let rest = without_return_type(item);
    let changed = without_return_type(launcher);
    let last = rest.len() - 1;
    assert(changed =~= rest.update(last, token));
    assert(return_type_of(launcher) =~= return_type_of(item)) by {
        if return_type_of(item) is Some {
            assert(return_type_of(launcher)->0 =~= return_type_of(item)->0);
        }
    }
    let word = Pattern::Ident("fn"@);
    let group = Pattern::Group(Delimiter::Parenthesis);
    lemma_first_match(rest, word, 0);
    lemma_first_match(rest, group, 0);
    lemma_update_keeps_first_match(rest, last, token, word, 0);
    lemma_update_keeps_first_match(rest, last, token, group, 0);
    assert(gathered(changed) == gathered(rest));
    assert(changed.subrange(0, last - 3) =~= rest.subrange(0, last - 3));
}

} // verus!
