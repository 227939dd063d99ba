//! The signature analyzer: from the token trees of a declaration to its name,
//! parameters, return type and body.

use crate::error::TransformError;
use crate::token::{
    copy_tokens, find, first_match, group_inner, ident_text, is_group, is_punct, lemma_first_match,
    lemma_group_view, push_copies, Delimiter, Pattern, Probe, Token, TokenView,
};
use vstd::prelude::*;

verus! {

/// One declared parameter: its name and the tokens of its type.
#[derive(Debug, PartialEq, Eq)]
pub struct Parameter {
    pub name: String,
    pub ty: Vec<Token>,
}

/// The mathematical value of a [`Parameter`].
pub struct ParameterView {
    pub name: Seq<char>,
    pub ty: Seq<TokenView>,
}

impl DeepView for Parameter {
    type V = ParameterView;

    open spec fn deep_view(&self) -> ParameterView {
        ParameterView { name: self.name@, ty: self.ty.deep_view() }
    }
}

/// A function declaration taken apart: what stands before `fn`, the name, the
/// parameters in order, the declared return type if any, and the trees of the
/// body block.
#[derive(Debug, PartialEq, Eq)]
pub struct FunctionSignature {
    pub qualifiers: Vec<Token>,
    pub name: String,
    pub params: Vec<Parameter>,
    pub return_type: Option<Vec<Token>>,
    pub body: Vec<Token>,
}

/// The mathematical value of a [`FunctionSignature`].
pub struct SignatureView {
    pub qualifiers: Seq<TokenView>,
    pub name: Seq<char>,
    pub params: Seq<ParameterView>,
    pub return_type: Option<Seq<TokenView>>,
    pub body: Seq<TokenView>,
}

impl DeepView for FunctionSignature {
    type V = SignatureView;

    open spec fn deep_view(&self) -> SignatureView {
        SignatureView {
            qualifiers: self.qualifiers.deep_view(),
            name: self.name@,
            params: self.params.deep_view(),
            return_type: self.return_type.deep_view(),
            body: self.body.deep_view(),
        }
    }
}

/// Whether the two trees at `at` and `at + 1` are `-` and `>`.
pub open spec fn arrow_at(tokens: Seq<TokenView>, at: int) -> bool {
    &&& 0 <= at
    &&& at + 1 < tokens.len()
    &&& is_punct(tokens[at], '-')
    &&& is_punct(tokens[at + 1], '>')
}

/// The index of the first `->` at or after `from`, or the length when there is
/// none.
pub open spec fn first_arrow(tokens: Seq<TokenView>, from: int) -> int
    decreases tokens.len() - from,
{
    if from < 0 || from >= tokens.len() {
        tokens.len() as int
    } else if arrow_at(tokens, from) {
        from
    } else {
        first_arrow(tokens, from + 1)
    }
}

/// The declared return type: the trees between the first `->` and the last
/// tree of the declaration, when there is at least one.
pub open spec fn return_type_of(item: Seq<TokenView>) -> Option<Seq<TokenView>> {
    let arrow = first_arrow(item, 0);
    if arrow + 3 < item.len() {
        Some(item.subrange(arrow + 2, item.len() - 1))
    } else {
        None
    }
}

/// The declaration without its return type: the `->` and the type are taken
/// out, everything else stays in place.
pub open spec fn without_return_type(item: Seq<TokenView>) -> Seq<TokenView> {
    let arrow = first_arrow(item, 0);
    if arrow + 3 < item.len() {
        item.subrange(0, arrow) + item.subrange(item.len() - 1, item.len() as int)
    } else {
        item
    }
}

/// The parameter that the trees between two separating commas spell: a name,
/// a `:`, and at least one tree of type.
pub open spec fn parameter_of(piece: Seq<TokenView>) -> Option<ParameterView> {
    if piece.len() >= 3 && piece[0] is Ident && is_punct(piece[1], ':') {
        Some(ParameterView { name: ident_text(piece[0]), ty: piece.subrange(2, piece.len() as int) })
    } else {
        None
    }
}

/// Whether the tree at `at` closes an angle bracket: a `>` that is not the
/// head of an arrow `->`.
pub open spec fn closes_angle(inner: Seq<TokenView>, at: int) -> bool {
    is_punct(inner[at], '>') && !(at > 0 && is_punct(inner[at - 1], '-'))
}

/// The index of the first comma at or after `from` that stands outside angle
/// brackets, `depth` of which are open at `from`, or the length when there is
/// none. A comma between `<` and its `>` belongs to a type and separates
/// nothing.
pub open spec fn next_separator(inner: Seq<TokenView>, from: int, depth: nat) -> int
    decreases inner.len() - from,
{
    if from < 0 || from >= inner.len() {
        inner.len() as int
    } else if depth == 0 && is_punct(inner[from], ',') {
        from
    } else if is_punct(inner[from], '<') {
        next_separator(inner, from + 1, depth + 1)
    } else if depth > 0 && closes_angle(inner, from) {
        next_separator(inner, from + 1, (depth - 1) as nat)
    } else {
        next_separator(inner, from + 1, depth)
    }
}

/// `next_separator` lies between `from` and the length.
pub proof fn lemma_next_separator(inner: Seq<TokenView>, from: int, depth: nat)
    requires
        0 <= from <= inner.len(),
    ensures
        from <= next_separator(inner, from, depth) <= inner.len(),
    decreases inner.len() - from,
{
    if from < inner.len() && !(depth == 0 && is_punct(inner[from], ',')) {
        if is_punct(inner[from], '<') {
            lemma_next_separator(inner, from + 1, depth + 1);
        } else if depth > 0 && closes_angle(inner, from) {
            lemma_next_separator(inner, from + 1, (depth - 1) as nat);
        } else {
            lemma_next_separator(inner, from + 1, depth);
        }
    }
}

/// The parameters spelled by `inner[from..]`, a list with at least one entry,
/// a separating comma between two entries and none after the last.
pub open spec fn parameters_from(inner: Seq<TokenView>, from: int) -> Option<Seq<ParameterView>>
    decreases inner.len() - from,
{
    let end = next_separator(inner, from, 0);
    if from < 0 || from > inner.len() {
        None
    } else {
        match parameter_of(inner.subrange(from, end)) {
            None => None,
            Some(first) => if end >= inner.len() {
                Some(seq![first])
            } else {
                proof {
                    lemma_next_separator(inner, from, 0);
                }
                match parameters_from(inner, end + 1) {
                    None => None,
                    Some(rest) => Some(seq![first] + rest),
                }
            },
        }
    }
}

/// The parameters spelled by the trees inside a parameter group. An empty
/// group declares none.
pub open spec fn parameters(inner: Seq<TokenView>) -> Option<Seq<ParameterView>> {
    if inner.len() == 0 {
        Some(Seq::empty())
    } else {
        parameters_from(inner, 0)
    }
}

/// The parameters of a declaration: those of its first parenthesized group.
pub open spec fn gathered(item: Seq<TokenView>) -> Option<Seq<ParameterView>> {
    let group = first_match(item, Pattern::Group(Delimiter::Parenthesis), 0);
    if group < item.len() {
        parameters(group_inner(item[group]))
    } else {
        None
    }
}

/// The signature that a declaration spells, if it has the shape
/// `qualifiers fn name ( parameters ) [-> type] { body }`: after the return
/// type is taken out, the first `fn` is followed by an identifier, the first
/// parenthesized group and a braced block, and nothing else.
pub open spec fn analysis(item: Seq<TokenView>) -> Option<SignatureView> {
    let rest = without_return_type(item);
    let at = first_match(rest, Pattern::Ident("fn"@), 0);
    let group = first_match(rest, Pattern::Group(Delimiter::Parenthesis), 0);
    if rest.len() == at + 4 && group == at + 2 && rest[at + 1] is Ident && is_group(
        rest[at + 3],
        Delimiter::Brace,
    ) {
        match gathered(rest) {
            Some(params) => Some(
                SignatureView {
                    qualifiers: rest.subrange(0, at),
                    name: ident_text(rest[at + 1]),
                    params,
                    return_type: return_type_of(item),
                    body: group_inner(rest[at + 3]),
                },
            ),
            None => None,
        }
    } else {
        None
    }
}

/// `first_arrow` lies within the sequence, and an arrow stands there unless it
/// is the length.
pub proof fn lemma_first_arrow(tokens: Seq<TokenView>, from: int)
    requires
        0 <= from <= tokens.len(),
    ensures
        from <= first_arrow(tokens, from) <= tokens.len(),
        first_arrow(tokens, from) < tokens.len() ==> arrow_at(tokens, first_arrow(tokens, from)),
    decreases tokens.len() - from,
{
    if from < tokens.len() && !arrow_at(tokens, from) {
        lemma_first_arrow(tokens, from + 1);
    }
}

/// In a declaration that has a signature, the qualifiers are the trees before
/// `fn`, the name follows `fn` directly, and the body is the last tree.
pub proof fn lemma_analysis_shape(item: Seq<TokenView>)
    requires
        analysis(item) is Some,
    ensures
        analysis(item)->0.qualifiers.len() + 4 <= item.len(),
        analysis(item)->0.qualifiers == item.subrange(
            0,
            analysis(item)->0.qualifiers.len() as int,
        ),
        item[analysis(item)->0.qualifiers.len() as int] == TokenView::Ident("fn"@),
        item[analysis(item)->0.qualifiers.len() as int + 1] == TokenView::Ident(
            analysis(item)->0.name,
        ),
        item.last() == TokenView::Group(Delimiter::Brace, analysis(item)->0.body),
{
    let rest = without_return_type(item);
    let at = first_match(rest, Pattern::Ident("fn"@), 0);
    let arrow = first_arrow(item, 0);
    lemma_first_arrow(item, 0);
    lemma_first_match(rest, Pattern::Ident("fn"@), 0);
    assert(0 <= at && rest.len() == at + 4);
    assert(rest.subrange(0, at) =~= item.subrange(0, at));
    assert(rest[at] == item[at]);
    assert(rest[at + 1] == item[at + 1]);
    assert(rest[at + 3] == item.last());
}

/// Scans for the first `->` at or after `from`.
fn find_arrow(tokens: &Vec<Token>, from: usize) -> (at: usize)
    requires
        from <= tokens.len(),
    ensures
        at == first_arrow(tokens.deep_view(), from as int),
        from <= at <= tokens.len(),
{
    let mut i: usize = from;
    while i < tokens.len()
        invariant
            from <= i <= tokens.len(),
            first_arrow(tokens.deep_view(), from as int) == first_arrow(
                tokens.deep_view(),
                i as int,
            ),
        decreases tokens.len() - i,
    {
        if i + 1 < tokens.len() && tokens[i].is_punct('-') && tokens[i + 1].is_punct('>') {
            return i;
        }
        i += 1;
    }
    i
}

/// Takes the `-> type` marker out of a declaration. Returns the declaration
/// without it and the type that was declared.
pub fn find_and_strip_return_type(item: &Vec<Token>) -> (parts: (Vec<Token>, Option<Vec<Token>>))
    ensures
        parts.0.deep_view() == without_return_type(item.deep_view()),
        parts.1.deep_view() == return_type_of(item.deep_view()),
{
    let arrow = find_arrow(item, 0);
    let n = item.len();
    if n >= 3 && arrow < n - 3 {
        let mut rest: Vec<Token> = Vec::new();
        let mut declared: Vec<Token> = Vec::new();
        assert(rest.deep_view() =~= Seq::<TokenView>::empty());
        assert(declared.deep_view() =~= Seq::<TokenView>::empty());
        push_copies(&mut rest, item, 0, arrow);
        push_copies(&mut rest, item, n - 1, n);
        push_copies(&mut declared, item, arrow + 2, n - 1);
        assert(rest.deep_view() =~= without_return_type(item.deep_view()));
        assert(declared.deep_view() =~= item.deep_view().subrange(arrow + 2, n - 1));
        (rest, Some(declared))
    } else {
        (copy_tokens(item), None)
    }
}

/// Scans for the comma that ends the parameter begun at `from`.
fn find_separator(inner: &Vec<Token>, from: usize) -> (at: usize)
    requires
        from <= inner.len(),
    ensures
        at == next_separator(inner.deep_view(), from as int, 0),
        from <= at <= inner.len(),
{
    let mut i: usize = from;
    let mut depth: usize = 0;
    while i < inner.len()
        invariant
            from <= i <= inner.len(),
            depth <= i - from,
            next_separator(inner.deep_view(), from as int, 0) == next_separator(
                inner.deep_view(),
                i as int,
                depth as nat,
            ),
        decreases inner.len() - i,
    {
        if depth == 0 && inner[i].is_punct(',') {
            return i;
        }
        if inner[i].is_punct('<') {
            depth += 1;
        } else if depth > 0 && inner[i].is_punct('>') && !(i > 0 && inner[i - 1].is_punct('-')) {
            depth -= 1;
        }
        i += 1;
    }
    i
}

/// Reads a comma-separated parameter list.
fn read_parameters(inner: &Vec<Token>) -> (params: Option<Vec<Parameter>>)
    ensures
        params.deep_view() == parameters(inner.deep_view()),
{
    let mut params: Vec<Parameter> = Vec::new();
    assert(params.deep_view() =~= Seq::<ParameterView>::empty());
    if inner.len() == 0 {
        return Some(params);
    }
    let mut from: usize = 0;
    loop
        invariant
            from <= inner.len(),
            parameters(inner.deep_view()) == (match parameters_from(
                inner.deep_view(),
                from as int,
            ) {
                None => None,
                Some(rest) => Some(params.deep_view() + rest),
            }),
        decreases inner.len() - from,
    {
        let end = find_separator(inner, from);
        let ghost piece = inner.deep_view().subrange(from as int, end as int);
        if end - from < 3 || !inner[from + 1].is_punct(':') {
            return None;
        }
        let name = match &inner[from] {
            Token::Ident(text) => text.clone(),
            _ => {
                return None;
            },
        };
        let mut ty: Vec<Token> = Vec::new();
        assert(ty.deep_view() =~= Seq::<TokenView>::empty());
        push_copies(&mut ty, inner, from + 2, end);
        assert(ty.deep_view() =~= piece.subrange(2, piece.len() as int));
        let ghost before = params.deep_view();
        let param = Parameter { name, ty };
        assert(parameter_of(piece) == Some(param.deep_view()));
        params.push(param);
        assert(params.deep_view() =~= before + seq![param.deep_view()]);
        if end >= inner.len() {
            assert(before + seq![param.deep_view()] =~= params.deep_view());
            return Some(params);
        }
        proof {
            match parameters_from(inner.deep_view(), end + 1) {
                Some(rest) => {
                    assert(before + (seq![param.deep_view()] + rest) =~= params.deep_view() + rest);
                },
                None => {},
            }
        }
        from = end + 1;
    }
}

/// Reads the parameters of a declaration from its first parenthesized group.
/// Fails when there is no such group or when an entry lacks its name, its `:`
/// or its type.
pub fn gather_parameters(item: &Vec<Token>) -> (params: Result<Vec<Parameter>, TransformError>)
    ensures
        match params {
            Ok(list) => gathered(item.deep_view()) == Some(list.deep_view()),
            Err(e) => e == TransformError::MalformedSignature && gathered(item.deep_view()) is None,
        },
{
    let group = find(item, &Probe::Group(Delimiter::Parenthesis), 0);
    if group >= item.len() {
        return Err(TransformError::MalformedSignature);
    }
    match &item[group] {
        Token::Group(delimiter, inner) => {
            proof {
                lemma_group_view(*delimiter, *inner);
            }
            match read_parameters(inner) {
                Some(list) => Ok(list),
                None => Err(TransformError::MalformedSignature),
            }
        },
        _ => {
            proof {
                lemma_first_match(
                    item.deep_view(),
                    Pattern::Group(Delimiter::Parenthesis),
                    0,
                );
            }
            Err(TransformError::MalformedSignature)
        },
    }
}

/// Takes a function declaration apart.
///
/// Succeeds exactly on declarations of the shape that [`analysis`] describes,
/// and then returns the signature that it gives.
pub fn analyze(item: &Vec<Token>) -> (signature: Result<FunctionSignature, TransformError>)
    ensures
        match signature {
            Ok(sig) => analysis(item.deep_view()) == Some(sig.deep_view()),
            Err(e) => e == TransformError::MalformedSignature && analysis(item.deep_view()) is None,
        },
{
    let (rest, return_type) = find_and_strip_return_type(item);
    let at = find(&rest, &Probe::Ident("fn"), 0);
    let group = find(&rest, &Probe::Group(Delimiter::Parenthesis), 0);
    if rest.len() < 4 || at != rest.len() - 4 || group != at + 2 {
        return Err(TransformError::MalformedSignature);
    }
    let name = match &rest[at + 1] {
        Token::Ident(text) => text.clone(),
        _ => {
            return Err(TransformError::MalformedSignature);
        },
    };
    let body = match &rest[at + 3] {
        Token::Group(delimiter, inner) => {
            proof {
                lemma_group_view(*delimiter, *inner);
            }
            if *delimiter == Delimiter::Brace {
                copy_tokens(inner)
            } else {
                return Err(TransformError::MalformedSignature);
            }
        },
        _ => {
            return Err(TransformError::MalformedSignature);
        },
    };
    let params = match gather_parameters(&rest) {
        Ok(list) => list,
        Err(e) => {
            return Err(e);
        },
    };
    let mut qualifiers: Vec<Token> = Vec::new();
    assert(qualifiers.deep_view() =~= Seq::<TokenView>::empty());
    push_copies(&mut qualifiers, &rest, 0, at);
    assert(qualifiers.deep_view() =~= rest.deep_view().subrange(0, at as int));
    Ok(FunctionSignature { qualifiers, name, params, return_type, body })
}

} // verus!
