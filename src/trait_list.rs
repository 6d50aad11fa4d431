//! The attribute's argument list: trait names separated by top-level commas.
use vstd::prelude::*;
use crate::tokens::{TokenTree, TokenV, Delimiter, Spacing, tokens_view, lemma_tokens_view};

verus! {

/// Whether `s` parses as a path (`Debug`, `std::fmt::Debug`, `Foo<T>`).
pub uninterp spec fn parses_as_path(s: Seq<char>) -> bool;

/// Relies on `syn::parse_str::<syn::Path>`: it either parses the text as a
/// path or fails, and which of the two depends on the text alone.
#[verifier::external_body]
fn is_path(s: &String) -> (r: bool)
    ensures
        r == parses_as_path(s@),
{
    syn::parse_str::<syn::Path>(s).is_ok()
}

/// Relies on `String`'s `FromIterator<&char>`: the characters, in order.
#[verifier::external_body]
pub(crate) fn string_from_chars(cs: &Vec<char>) -> (r: String)
    ensures
        r@ == cs@,
{
    cs.iter().collect()
}

/// Relies on `str::chars`: the characters of the string, in order.
#[verifier::external_body]
pub(crate) fn chars_of(s: &str) -> (r: Vec<char>)
    ensures
        r@ == s@,
{
    s.chars().collect()
}

pub open spec fn strings_view(s: Seq<String>) -> Seq<Seq<char>> {
    s.map_values(|x: String| x@)
}

/// The characters with the Unicode `White_Space` property.
pub open spec fn is_white_space(c: char) -> bool {
    ||| '\t' <= c <= '\r'
    ||| c == ' '
    ||| c == '\u{85}'
    ||| c == '\u{A0}'
    ||| c == '\u{1680}'
    ||| '\u{2000}' <= c <= '\u{200A}'
    ||| c == '\u{2028}'
    ||| c == '\u{2029}'
    ||| c == '\u{202F}'
    ||| c == '\u{205F}'
    ||| c == '\u{3000}'
}

pub open spec fn trim_start(s: Seq<char>) -> Seq<char>
    decreases s.len(),
{
    if s.len() > 0 && is_white_space(s[0]) {
        trim_start(s.drop_first())
    } else {
        s
    }
}

pub open spec fn trim_end(s: Seq<char>) -> Seq<char>
    decreases s.len(),
{
    if s.len() > 0 && is_white_space(s.last()) {
        trim_end(s.drop_last())
    } else {
        s
    }
}

/// `s` without leading and trailing white space.
pub open spec fn trim(s: Seq<char>) -> Seq<char> {
    trim_end(trim_start(s))
}

pub open spec fn open_text(d: Delimiter) -> Seq<char> {
    match d {
        Delimiter::Parenthesis => seq!['('],
        Delimiter::Brace => seq!['{', ' '],
        Delimiter::Bracket => seq!['['],
        Delimiter::Invisible => Seq::empty(),
    }
}

pub open spec fn close_text(d: Delimiter, nonempty: bool) -> Seq<char> {
    match d {
        Delimiter::Parenthesis => seq![')'],
        Delimiter::Brace => if nonempty {
            seq![' ', '}']
        } else {
            seq!['}']
        },
        Delimiter::Bracket => seq![']'],
        Delimiter::Invisible => Seq::empty(),
    }
}

/// What separates a token from the one before it inside a group: nothing
/// after a joint punctuation character, one space otherwise.
pub open spec fn separator_after(prev: TokenV) -> Seq<char> {
    match prev {
        TokenV::Punct(_, Spacing::Joint) => Seq::empty(),
        _ => seq![' '],
    }
}

/// The source text of a token.
pub open spec fn token_text(t: TokenV) -> Seq<char>
    decreases t,
{
    match t {
        TokenV::Ident(s) => s,
        TokenV::Punct(c, _) => seq![c],
        TokenV::Literal(s) => s,
        TokenV::Group(d, inner) => open_text(d) + stream_text(inner) + close_text(d, inner.len() > 0),
    }
}

/// The source text of a token stream inside a group.
pub open spec fn stream_text(ts: Seq<TokenV>) -> Seq<char>
    decreases ts,
{
    if ts.len() == 0 {
        Seq::empty()
    } else if ts.len() == 1 {
        token_text(ts[0])
    } else {
        stream_text(ts.drop_last()) + separator_after(ts[ts.len() - 2]) + token_text(ts.last())
    }
}

pub open spec fn is_comma(t: TokenV) -> bool {
    match t {
        TokenV::Punct(c, _) => c == ',',
        _ => false,
    }
}

/// `done` with the candidate `current` appended when, trimmed, it is not
/// empty and parses as a path.
pub open spec fn finish_candidate(done: Seq<Seq<char>>, current: Seq<char>) -> Seq<Seq<char>> {
    let t = trim(current);
    if t.len() > 0 && parses_as_path(t) {
        done.push(t)
    } else {
        done
    }
}

/// What goes before the last token of `ts` in the text of its candidate:
/// nothing at the start of a candidate, else the separator that follows the
/// token before it.
pub open spec fn candidate_separator(ts: Seq<TokenV>) -> Seq<char> {
    if ts.len() >= 2 && !is_comma(ts[ts.len() - 2]) {
        separator_after(ts[ts.len() - 2])
    } else {
        Seq::empty()
    }
}

/// The accepted trait names before the last top-level comma of `ts`, and the
/// text of the tokens after it, separated as inside a group.
pub open spec fn scan_traits(ts: Seq<TokenV>) -> (Seq<Seq<char>>, Seq<char>)
    decreases ts.len(),
{
    if ts.len() == 0 {
        (Seq::empty(), Seq::empty())
    } else {
        let (done, current) = scan_traits(ts.drop_last());
        if is_comma(ts.last()) {
            (finish_candidate(done, current), Seq::empty())
        } else {
            (done, current + candidate_separator(ts) + token_text(ts.last()))
        }
    }
}

/// The trait names of an argument list, in order: candidates split at
/// top-level commas, their tokens written out as inside a group, trimmed, with empty ones and those that do not parse as
/// a path left out.
pub open spec fn derive_list(ts: Seq<TokenV>) -> Seq<Seq<char>> {
    finish_candidate(scan_traits(ts).0, scan_traits(ts).1)
}

fn is_white_space_char(c: char) -> (r: bool)
    ensures
        r == is_white_space(c),
{
    ('\t' <= c && c <= '\r') || c == ' ' || c == '\u{85}' || c == '\u{A0}' || c == '\u{1680}' || (
    '\u{2000}' <= c && c <= '\u{200A}') || c == '\u{2028}' || c == '\u{2029}' || c == '\u{202F}'
        || c == '\u{205F}' || c == '\u{3000}'
}

fn push_all(out: &mut Vec<char>, cs: &Vec<char>)
    ensures
        final(out)@ == old(out)@ + cs@,
{
    let ghost start = out@;
    let mut i: usize = 0;
    while i < cs.len()
        invariant
            i <= cs.len(),
            out@ == start + cs@.take(i as int),
        decreases cs.len() - i,
    {
        assert(cs@.take(i + 1) =~= cs@.take(i as int).push(cs@[i as int]));
        out.push(cs[i]);
        i = i + 1;
    }
    assert(cs@.take(cs.len() as int) =~= cs@);
}

fn push_delimiter(out: &mut Vec<char>, d: Delimiter, opening: bool, nonempty: bool)
    ensures
        opening ==> final(out)@ == old(out)@ + open_text(d),
        !opening ==> final(out)@ == old(out)@ + close_text(d, nonempty),
{
    let ghost start = out@;
    match d {
        Delimiter::Parenthesis => out.push(if opening { '(' } else { ')' }),
        Delimiter::Bracket => out.push(if opening { '[' } else { ']' }),
        Delimiter::Brace => {
            if opening {
                out.push('{');
                out.push(' ');
            } else {
                if nonempty {
                    out.push(' ');
                }
                out.push('}');
            }
        },
        Delimiter::Invisible => {},
    }
    assert(opening ==> out@ =~= start + open_text(d));
    assert(!opening ==> out@ =~= start + close_text(d, nonempty));
}

/// Appends the source text of `t` to `out`.
fn push_token_text(t: &TokenTree, out: &mut Vec<char>)
    ensures
        final(out)@ == old(out)@ + token_text(t@),
    decreases t,
{
    match t {
        TokenTree::Ident(s) => push_all(out, &chars_of(s.as_str())),
        TokenTree::Punct(c, _) => {
            out.push(*c);
            assert(token_text(t@) =~= seq![*c]);
        },
        TokenTree::Literal(s) => push_all(out, &chars_of(s.as_str())),
        TokenTree::Group(d, inner) => {
            let ghost start = out@;
            proof {
                lemma_tokens_view(inner@);
            }
            push_delimiter(out, *d, true, false);
            push_stream_text(inner, out);
            push_delimiter(out, *d, false, inner.len() > 0);
            assert(out@ =~= start + token_text(t@));
        },
    }
}

/// Appends the source text of a group's token stream to `out`.
fn push_stream_text(ts: &Vec<TokenTree>, out: &mut Vec<char>)
    ensures
        final(out)@ == old(out)@ + stream_text(tokens_view(ts@)),
    decreases ts,
{
    let ghost start = out@;
    let ghost tv = tokens_view(ts@);
    proof {
        lemma_tokens_view(ts@);
    }
    assert(tv.take(0) =~= Seq::<TokenV>::empty());
    assert(out@ =~= start + stream_text(tv.take(0)));
    let mut i: usize = 0;
    while i < ts.len()
        invariant
            i <= ts.len(),
            tv == tokens_view(ts@),
            tv.len() == ts.len(),
            forall|j: int| 0 <= j < ts.len() ==> #[trigger] tv[j] == ts@[j]@,
            out@ == start + stream_text(tv.take(i as int)),
        decreases ts.len() - i,
    {
        let ghost before = out@;
        let ghost pre = tv.take(i + 1);
        assert(pre.drop_last() =~= tv.take(i as int));
        assert(pre.last() == tv[i as int]);
        if i > 0 {
            assert(pre[i - 1] == tv[i - 1]);
            let joint = match &ts[i - 1] {
                TokenTree::Punct(_, Spacing::Joint) => true,
                _ => false,
            };
            if !joint {
                out.push(' ');
            }
            assert(out@ =~= before + separator_after(tv[i - 1]));
        } else {
            assert(pre =~= seq![tv[0]]);
        }
        push_token_text(&ts[i], out);
        assert(out@ =~= start + stream_text(pre));
        i = i + 1;
    }
    assert(tv.take(ts.len() as int) =~= tv);
}

fn trim_chars(cs: &Vec<char>) -> (r: Vec<char>)
    ensures
        r@ == trim(cs@),
{
    let n = cs.len();
    let mut i: usize = 0;
    assert(cs@.skip(0) =~= cs@);
    while i < n && is_white_space_char(cs[i])
        invariant
            i <= n,
            n == cs.len(),
            trim_start(cs@) == trim_start(cs@.skip(i as int)),
        decreases n - i,
    {
        assert(cs@.skip(i as int).drop_first() =~= cs@.skip(i + 1));
        i = i + 1;
    }
    let ghost w = cs@.skip(i as int);
    assert(trim_start(cs@) == w);
    let mut j: usize = n;
    assert(w.take((j - i) as int) =~= w);
    while j > i && is_white_space_char(cs[j - 1])
        invariant
            i <= j <= n,
            n == cs.len(),
            w == cs@.skip(i as int),
            trim_end(w) == trim_end(w.take((j - i) as int)),
        decreases j,
    {
        assert(w.take((j - i) as int).drop_last() =~= w.take((j - 1 - i) as int));
        j = j - 1;
    }
    assert(trim_end(w) == w.take((j - i) as int));
    let mut r: Vec<char> = Vec::new();
    let mut k: usize = i;
    while k < j
        invariant
            i <= k <= j <= n,
            n == cs.len(),
            w == cs@.skip(i as int),
            r@ == w.take((k - i) as int),
        decreases j - k,
    {
        assert(w.take((k + 1 - i) as int) =~= w.take((k - i) as int).push(cs@[k as int]));
        r.push(cs[k]);
        k = k + 1;
    }
    r
}

fn finish_trait(traits: &mut Vec<String>, current: &Vec<char>)
    ensures
        strings_view(final(traits)@) == finish_candidate(strings_view(old(traits)@), current@),
{
    let t = trim_chars(current);
    if t.len() > 0 {
        let s = string_from_chars(&t);
        if is_path(&s) {
            let ghost before = traits@;
            traits.push(s);
            assert(strings_view(traits@) =~= strings_view(before).push(s@));
        }
    }
}

/// Splits the argument tokens at top-level commas into trait names, keeping
/// those that, trimmed, are not empty and parse as a path.
pub fn parse_derive_traits(args: &Vec<TokenTree>) -> (r: Vec<String>)
    ensures
        strings_view(r@) == derive_list(tokens_view(args@)),
{
    let ghost tv = tokens_view(args@);
    proof {
        lemma_tokens_view(args@);
    }
    let mut traits: Vec<String> = Vec::new();
    let mut current: Vec<char> = Vec::new();
    assert(tv.take(0) =~= Seq::<TokenV>::empty());
    assert(strings_view(traits@) =~= Seq::<Seq<char>>::empty());
    let mut i: usize = 0;
    while i < args.len()
        invariant
            i <= args.len(),
            tv == tokens_view(args@),
            tv.len() == args.len(),
            forall|j: int| 0 <= j < args.len() ==> #[trigger] tv[j] == args@[j]@,
            scan_traits(tv.take(i as int)) == (strings_view(traits@), current@),
        decreases args.len() - i,
    {
        let ghost pre = tv.take(i + 1);
        assert(pre.drop_last() =~= tv.take(i as int));
        assert(pre.last() == tv[i as int]);
        let comma = match &args[i] {
            TokenTree::Punct(c, _) => *c == ',',
            _ => false,
        };
        if comma {
            finish_trait(&mut traits, &current);
            current = Vec::new();
            assert(current@ =~= Seq::<char>::empty());
        } else {
            let ghost before = current@;
            if i > 0 {
                assert(pre[i - 1] == tv[i - 1]);
                let (after_comma, joint) = match &args[i - 1] {
                    TokenTree::Punct(c, sp) => (*c == ',', *sp == Spacing::Joint),
                    _ => (false, false),
                };
                if !after_comma && !joint {
                    current.push(' ');
                }
            }
            assert(current@ =~= before + candidate_separator(pre));
            push_token_text(&args[i], &mut current);
        }
        i = i + 1;
    }
    assert(tv.take(args.len() as int) =~= tv);
    finish_trait(&mut traits, &current);
    traits
}

} // verus!
