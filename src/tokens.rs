//! Raw token trees: the opaque argument stream of a macro invocation, and the
//! pieces of a declaration that pass through unmodified.
use vstd::prelude::*;

verus! {

/// How a token group is bracketed.
#[derive(Clone, Copy, Debug, PartialEq, Eq, Structural)]
pub enum Delimiter {
    Parenthesis,
    Brace,
    Bracket,
    /// An invisible group, as produced by macro_rules fragments.
    Invisible,
}

/// Whether a punctuation character is glued to the token that follows it.
#[derive(Clone, Copy, Debug, PartialEq, Eq, Structural)]
pub enum Spacing {
    Alone,
    Joint,
}

/// One token tree of a token stream.
#[derive(Debug)]
pub enum TokenTree {
    Ident(String),
    Punct(char, Spacing),
    Literal(String),
    Group(Delimiter, Vec<TokenTree>),
}

/// The mathematical value of a token tree.
pub enum TokenV {
    Ident(Seq<char>),
    Punct(char, Spacing),
    Literal(Seq<char>),
    Group(Delimiter, Seq<TokenV>),
}

pub open spec fn token_view(t: TokenTree) -> TokenV
    decreases t,
{
    match t {
        TokenTree::Ident(s) => TokenV::Ident(s@),
        TokenTree::Punct(c, sp) => TokenV::Punct(c, sp),
        TokenTree::Literal(s) => TokenV::Literal(s@),
        TokenTree::Group(d, ts) => TokenV::Group(d, tokens_view(ts@)),
    }
}

pub open spec fn tokens_view(ts: Seq<TokenTree>) -> Seq<TokenV>
    decreases ts,
{
    if ts.len() == 0 {
        Seq::empty()
    } else {
        tokens_view(ts.drop_last()).push(token_view(ts.last()))
    }
}

impl View for TokenTree {
    type V = TokenV;

    open spec fn view(&self) -> TokenV {
        token_view(*self)
    }
}

/// The view of a token sequence is taken element by element.
pub proof fn lemma_tokens_view(ts: Seq<TokenTree>)
    ensures
        tokens_view(ts).len() == ts.len(),
        forall|i: int| 0 <= i < ts.len() ==> #[trigger] tokens_view(ts)[i] == token_view(ts[i]),
    decreases ts.len(),
{
    if ts.len() > 0 {
        lemma_tokens_view(ts.drop_last());
    }
}

impl TokenTree {
    /// A structurally equal copy.
    pub fn duplicate(&self) -> (r: TokenTree)
        ensures
            r@ == self@,
        decreases self,
    {
        match self {
            TokenTree::Ident(s) => TokenTree::Ident(s.clone()),
            TokenTree::Punct(c, sp) => TokenTree::Punct(*c, *sp),
            TokenTree::Literal(s) => TokenTree::Literal(s.clone()),
            TokenTree::Group(d, ts) => TokenTree::Group(*d, copy_tokens(ts)),
        }
    }

    /// Structural equality: same kind, same text, same nested tokens.
    pub fn same_as(&self, other: &TokenTree) -> (r: bool)
        ensures
            r == (self@ == other@),
        decreases self,
    {
        match (self, other) {
            (TokenTree::Ident(a), TokenTree::Ident(b)) => a.eq(b),
            (TokenTree::Punct(a, sa), TokenTree::Punct(b, sb)) => *a == *b && *sa == *sb,
            (TokenTree::Literal(a), TokenTree::Literal(b)) => a.eq(b),
            (TokenTree::Group(da, a), TokenTree::Group(db, b)) => *da == *db && tokens_equal(a, b),
            _ => false,
        }
    }
}

/// Structural equality of two token sequences.
pub fn tokens_equal(a: &Vec<TokenTree>, b: &Vec<TokenTree>) -> (r: bool)
    ensures
        r == (tokens_view(a@) == tokens_view(b@)),
    decreases a,
{
    proof {
        lemma_tokens_view(a@);
        lemma_tokens_view(b@);
    }
    if a.len() != b.len() {
        return false;
    }
    let mut i: usize = 0;
    while i < a.len()
        invariant
            i <= a.len(),
            a.len() == b.len(),
            tokens_view(a@).len() == a.len(),
            tokens_view(b@).len() == b.len(),
            forall|j: int| 0 <= j < a.len() ==> #[trigger] tokens_view(a@)[j] == token_view(a@[j]),
            forall|j: int| 0 <= j < b.len() ==> #[trigger] tokens_view(b@)[j] == token_view(b@[j]),
            forall|j: int| 0 <= j < i ==> tokens_view(a@)[j] == #[trigger] tokens_view(b@)[j],
        decreases a.len() - i,
    {
        if !a[i].same_as(&b[i]) {
            assert(tokens_view(a@)[i as int] != tokens_view(b@)[i as int]);
            return false;
        }
        i = i + 1;
    }
    assert(tokens_view(a@) =~= tokens_view(b@));
    true
}

/// A structurally equal copy of a token sequence.
pub fn copy_tokens(ts: &Vec<TokenTree>) -> (r: Vec<TokenTree>)
    ensures
        tokens_view(r@) == tokens_view(ts@),
    decreases ts,
{
    let mut r: Vec<TokenTree> = Vec::new();
    let mut i: usize = 0;
    while i < ts.len()
        invariant
            i <= ts.len(),
            tokens_view(r@) == tokens_view(ts@.take(i as int)),
        decreases ts.len() - i,
    {
        let t = ts[i].duplicate();
        proof {
            assert(ts@.take(i + 1).drop_last() =~= ts@.take(i as int));
            assert(r@.push(t).drop_last() =~= r@);
        }
        r.push(t);
        i = i + 1;
    }
    assert(ts@.take(ts.len() as int) =~= ts@);
    r
}

} // verus!
