//! Token trees: the form in which declarations are read and written.

use vstd::prelude::*;

verus! {

/// The bracket kind that encloses a group of tokens.
#[derive(Clone, Copy, Debug, PartialEq, Eq, Structural)]
pub enum Delimiter {
    /// `( ... )`
    Parenthesis,
    /// `{ ... }`
    Brace,
    /// `[ ... ]`
    Bracket,
    /// A group without visible brackets.
    Invisible,
}

/// Whether a punctuation character is glued to the punctuation that follows it.
#[derive(Clone, Copy, Debug, PartialEq, Eq, Structural)]
pub enum Spacing {
    /// The next token is separate: `+ =`.
    Alone,
    /// The next punctuation character continues this operator: the `-` of `->`.
    Joint,
}

/// One node of a token tree: a word, a punctuation character, a literal, or a
/// bracketed group holding further trees.
#[derive(Debug, PartialEq, Eq)]
pub enum Token {
    /// An identifier or keyword.
    Ident(String),
    /// A single punctuation character.
    Punct(char, Spacing),
    /// A literal, kept as its source text.
    Literal(String),
    /// A delimited group and the trees inside it.
    Group(Delimiter, Vec<Token>),
}

/// The mathematical value of a [`Token`]: texts are sequences of characters
/// and the inside of a group is a sequence of values.
pub enum TokenView {
    /// An identifier or keyword with its text.
    Ident(Seq<char>),
    /// A punctuation character and its spacing.
    Punct(char, Spacing),
    /// A literal with its source text.
    Literal(Seq<char>),
    /// A group with its delimiter and the values of its trees.
    Group(Delimiter, Seq<TokenView>),
}

/// The value of one token tree.
pub open spec fn token_view(token: Token) -> TokenView
    decreases token,
{
    match token {
        Token::Ident(text) => TokenView::Ident(text@),
        Token::Punct(ch, spacing) => TokenView::Punct(ch, spacing),
        Token::Literal(text) => TokenView::Literal(text@),
        Token::Group(delimiter, inner) => TokenView::Group(
            delimiter,
            Seq::new(
                inner@.len(),
                |i: int|
                    if 0 <= i < inner@.len() {
                        token_view(inner@[i])
                    } else {
                        arbitrary()
                    },
            ),
        ),
    }
}

impl DeepView for Token {
    type V = TokenView;

    open spec fn deep_view(&self) -> TokenView {
        token_view(*self)
    }
}

/// The value of a group is the group of the values of its trees.
pub proof fn lemma_group_view(delimiter: Delimiter, inner: Vec<Token>)
    ensures
        Token::Group(delimiter, inner).deep_view() == TokenView::Group(
            delimiter,
            inner.deep_view(),
        ),
{
    match Token::Group(delimiter, inner).deep_view() {
        TokenView::Group(_, trees) => {
            assert(trees =~= inner.deep_view());
        },
        _ => {},
    }
}

impl Clone for Token {
    /// A deep copy: a tree of its own with the same value.
    fn clone(&self) -> (copy: Self)
        ensures
            copy.deep_view() == self.deep_view(),
        decreases self,
    {
        match self {
            Token::Ident(text) => Token::Ident(text.clone()),
            Token::Punct(ch, spacing) => Token::Punct(*ch, *spacing),
            Token::Literal(text) => Token::Literal(text.clone()),
            Token::Group(delimiter, inner) => {
                let copied = copy_tokens(inner);
                proof {
                    lemma_group_view(*delimiter, *inner);
                    lemma_group_view(*delimiter, copied);
                }
                Token::Group(*delimiter, copied)
            },
        }
    }
}

/// A deep copy of a sequence of token trees.
pub fn copy_tokens(tokens: &Vec<Token>) -> (copy: Vec<Token>)
    ensures
        copy.deep_view() == tokens.deep_view(),
    decreases tokens,
{
    let mut copy: Vec<Token> = Vec::new();
    let mut i: usize = 0;
    while i < tokens.len()
        invariant
            i <= tokens.len(),
            copy.len() == i,
            forall|j: int| 0 <= j < i ==> copy@[j].deep_view() == tokens@[j].deep_view(),
        decreases tokens.len() - i,
    {
        copy.push(tokens[i].clone());
        i += 1;
    }
    assert(copy.deep_view() =~= tokens.deep_view());
    copy
}

/// The text of an identifier, and the empty text for any other tree.
pub open spec fn ident_text(token: TokenView) -> Seq<char> {
    match token {
        TokenView::Ident(text) => text,
        _ => Seq::empty(),
    }
}

/// The trees inside a group, and no trees for any other token.
pub open spec fn group_inner(token: TokenView) -> Seq<TokenView> {
    match token {
        TokenView::Group(_, inner) => inner,
        _ => Seq::empty(),
    }
}

/// Whether the tree is the punctuation character `ch`, whatever follows it.
pub open spec fn is_punct(token: TokenView, ch: char) -> bool {
    token matches TokenView::Punct(c, _) && c == ch
}

/// Whether the tree is a group enclosed by `delimiter`.
pub open spec fn is_group(token: TokenView, delimiter: Delimiter) -> bool {
    token matches TokenView::Group(d, _) && d == delimiter
}

/// What a scan over one nesting level looks for.
pub enum Pattern {
    /// The identifier with exactly this text.
    Ident(Seq<char>),
    /// This punctuation character, with either spacing.
    Punct(char),
    /// Any group with this delimiter.
    Group(Delimiter),
}

/// Whether a tree is what the pattern looks for.
pub open spec fn fits(token: TokenView, pattern: Pattern) -> bool {
    match pattern {
        Pattern::Ident(text) => token == TokenView::Ident(text),
        Pattern::Punct(ch) => is_punct(token, ch),
        Pattern::Group(delimiter) => is_group(token, delimiter),
    }
}

/// The index of the first tree at or after `from` that fits the pattern, or the
/// length of the sequence when there is none. Nested groups are not entered.
pub open spec fn first_match(tokens: Seq<TokenView>, pattern: Pattern, from: int) -> int
    decreases tokens.len() - from,
{
    if from < 0 || from >= tokens.len() {
        tokens.len() as int
    } else if fits(tokens[from], pattern) {
        from
    } else {
        first_match(tokens, pattern, from + 1)
    }
}

/// `first_match` is the least fitting index: nothing before it fits, and it
/// fits unless it is the length.
pub proof fn lemma_first_match(tokens: Seq<TokenView>, pattern: Pattern, from: int)
    requires
        0 <= from <= tokens.len(),
    ensures
        from <= first_match(tokens, pattern, from) <= tokens.len(),
        first_match(tokens, pattern, from) < tokens.len() ==> fits(
            tokens[first_match(tokens, pattern, from)],
            pattern,
        ),
        forall|i: int| from <= i < first_match(tokens, pattern, from) ==> !fits(tokens[i], pattern),
    decreases tokens.len() - from,
{
    if from < tokens.len() && !fits(tokens[from], pattern) {
        lemma_first_match(tokens, pattern, from + 1);
    }
}

/// The executable form of a [`Pattern`].
pub enum Probe<'a> {
    /// The identifier with exactly this text.
    Ident(&'a str),
    /// This punctuation character, with either spacing.
    Punct(char),
    /// Any group with this delimiter.
    Group(Delimiter),
}

impl<'a> View for Probe<'a> {
    type V = Pattern;

    open spec fn view(&self) -> Pattern {
        match self {
            Probe::Ident(text) => Pattern::Ident(text@),
            Probe::Punct(ch) => Pattern::Punct(*ch),
            Probe::Group(delimiter) => Pattern::Group(*delimiter),
        }
    }
}

impl Token {
    /// Whether this is the identifier `name`.
    pub fn is_ident(&self, name: &str) -> (yes: bool)
        ensures
            yes == (self.deep_view() == TokenView::Ident(name@)),
    {
        match self {
            Token::Ident(text) => {
                let wanted = String::from_str(name);
                *text == wanted
            },
            _ => false,
        }
    }

    /// Whether this is the punctuation character `ch`.
    pub fn is_punct(&self, ch: char) -> (yes: bool)
        ensures
            yes == is_punct(self.deep_view(), ch),
    {
        match self {
            Token::Punct(c, _) => *c == ch,
            _ => false,
        }
    }

    /// Whether this is a group enclosed by `delimiter`.
    pub fn is_group(&self, delimiter: Delimiter) -> (yes: bool)
        ensures
            yes == is_group(self.deep_view(), delimiter),
    {
        match self {
            Token::Group(d, _) => *d == delimiter,
            _ => false,
        }
    }

    /// Whether this tree is what the probe looks for.
    pub fn fits(&self, probe: &Probe) -> (yes: bool)
        ensures
            yes == fits(self.deep_view(), probe@),
    {
        match probe {
            Probe::Ident(name) => self.is_ident(name),
            Probe::Punct(ch) => self.is_punct(*ch),
            Probe::Group(delimiter) => self.is_group(*delimiter),
        }
    }
}

/// Scans `tokens` from `from` for the first tree that fits `probe`.
pub fn find(tokens: &Vec<Token>, probe: &Probe, from: usize) -> (at: usize)
    requires
        from <= tokens.len(),
    ensures
        at == first_match(tokens.deep_view(), probe@, from as int),
        from <= at <= tokens.len(),
{
    let mut i: usize = from;
    while i < tokens.len()
        invariant
            from <= i <= tokens.len(),
            first_match(tokens.deep_view(), probe@, from as int) == first_match(
                tokens.deep_view(),
                probe@,
                i as int,
            ),
        decreases tokens.len() - i,
    {
        if tokens[i].fits(probe) {
            return i;
        }
        i += 1;
    }
    i
}

/// Appends one tree.
pub(crate) fn push_token(out: &mut Vec<Token>, token: Token)
    ensures
        final(out).deep_view() == old(out).deep_view().push(token.deep_view()),
{
    out.push(token);
    assert(out.deep_view() =~= old(out).deep_view().push(token.deep_view()));
}

/// Appends the identifier `name`.
pub(crate) fn push_ident(out: &mut Vec<Token>, name: &str)
    ensures
        final(out).deep_view() == old(out).deep_view().push(TokenView::Ident(name@)),
{
    push_token(out, Token::Ident(String::from_str(name)));
}

/// Appends the punctuation character `ch`.
pub(crate) fn push_punct(out: &mut Vec<Token>, ch: char, spacing: Spacing)
    ensures
        final(out).deep_view() == old(out).deep_view().push(TokenView::Punct(ch, spacing)),
{
    push_token(out, Token::Punct(ch, spacing));
}

/// Appends a group that encloses `inner`.
pub(crate) fn push_group(out: &mut Vec<Token>, delimiter: Delimiter, inner: Vec<Token>)
    ensures
        final(out).deep_view() == old(out).deep_view().push(
            TokenView::Group(delimiter, inner.deep_view()),
        ),
{
    proof {
        lemma_group_view(delimiter, inner);
    }
    push_token(out, Token::Group(delimiter, inner));
}

/// Appends deep copies of `source[from..to]`.
pub(crate) fn push_copies(out: &mut Vec<Token>, source: &Vec<Token>, from: usize, to: usize)
    requires
        from <= to <= source.len(),
    ensures
        final(out).deep_view() == old(out).deep_view() + source.deep_view().subrange(
            from as int,
            to as int,
        ),
{
    let mut i: usize = from;
    assert(out.deep_view() =~= old(out).deep_view() + source.deep_view().subrange(
        from as int,
        from as int,
    ));
    while i < to
        invariant
            from <= i <= to <= source.len(),
            out.deep_view() == old(out).deep_view() + source.deep_view().subrange(
                from as int,
                i as int,
            ),
        decreases to - i,
    {
        let ghost before = out.deep_view();
        push_token(out, source[i].clone());
        assert(before.push(source.deep_view()[i as int]) =~= old(out).deep_view()
            + source.deep_view().subrange(from as int, i + 1));
        i += 1;
    }
}

} // verus!
