//! Type expressions, and the walker that finds the macro invocations inside
//! them and substitutes alias references for them.
use vstd::prelude::*;
use crate::tokens::{TokenTree, TokenV, Delimiter, tokens_view, copy_tokens, tokens_equal};
use crate::alias::{AliasItem, AliasV, aliases_view, find_alias, alias_ref, find_alias_index, alias_reference};

verus! {

/// A macro invocation in type position: `path! delimited-tokens`. Its
/// arguments stay raw tokens; they are never parsed as types.
#[derive(Debug)]
pub struct MacroCall {
    pub path: Vec<TokenTree>,
    pub delimiter: Delimiter,
    pub tokens: Vec<TokenTree>,
}

pub struct MacroV {
    pub path: Seq<TokenV>,
    pub delimiter: Delimiter,
    pub tokens: Seq<TokenV>,
}

impl View for MacroCall {
    type V = MacroV;

    open spec fn view(&self) -> MacroV {
        MacroV {
            path: tokens_view(self.path@),
            delimiter: self.delimiter,
            tokens: tokens_view(self.tokens@),
        }
    }
}

pub open spec fn macros_view(ms: Seq<MacroCall>) -> Seq<MacroV> {
    ms.map_values(|m: MacroCall| m@)
}

/// One segment of a path, with its angle-bracketed type arguments (empty when
/// the segment has none).
#[derive(Debug)]
pub struct PathSegment {
    pub ident: String,
    pub args: Vec<TypeExpr>,
}

/// A type expression. Shapes that the walker does not enter (function
/// pointers, trait objects, parenthesized paths, ...) are kept as raw tokens.
#[derive(Debug)]
pub enum TypeExpr {
    Path { global: bool, segments: Vec<PathSegment> },
    /// `<qself as seg0::..::seg(position-1)>::seg(position)::..`, or
    /// `<qself>::seg0::..` when `position` is 0. The self type stays raw
    /// tokens; the segments are walked as in a plain path.
    Qualified { qself: Vec<TokenTree>, position: usize, global: bool, segments: Vec<PathSegment> },
    Array { elem: Box<TypeExpr>, len: Vec<TokenTree> },
    Slice { elem: Box<TypeExpr> },
    Ptr { mutable: bool, elem: Box<TypeExpr> },
    Reference { lifetime: Option<String>, mutable: bool, elem: Box<TypeExpr> },
    Tuple { elems: Vec<TypeExpr> },
    Macro(MacroCall),
    Other(Vec<TokenTree>),
}

pub struct SegmentV {
    pub ident: Seq<char>,
    pub args: Seq<TypeV>,
}

pub enum TypeV {
    Path { global: bool, segments: Seq<SegmentV> },
    Qualified { qself: Seq<TokenV>, position: usize, global: bool, segments: Seq<SegmentV> },
    Array { elem: Box<TypeV>, len: Seq<TokenV> },
    Slice { elem: Box<TypeV> },
    Ptr { mutable: bool, elem: Box<TypeV> },
    Reference { lifetime: Option<Seq<char>>, mutable: bool, elem: Box<TypeV> },
    Tuple { elems: Seq<TypeV> },
    Macro(MacroV),
    Other(Seq<TokenV>),
}

pub open spec fn opt_string_view(o: Option<String>) -> Option<Seq<char>> {
    match o {
        Some(s) => Some(s@),
        None => None,
    }
}

pub open spec fn type_view(t: TypeExpr) -> TypeV
    decreases t,
{
    match t {
        TypeExpr::Path { global, segments } => TypeV::Path {
            global,
            segments: segments_view(segments@),
        },
        TypeExpr::Qualified { qself, position, global, segments } => TypeV::Qualified {
            qself: tokens_view(qself@),
            position,
            global,
            segments: segments_view(segments@),
        },
        TypeExpr::Array { elem, len } => TypeV::Array {
            elem: Box::new(type_view(*elem)),
            len: tokens_view(len@),
        },
        TypeExpr::Slice { elem } => TypeV::Slice { elem: Box::new(type_view(*elem)) },
        TypeExpr::Ptr { mutable, elem } => TypeV::Ptr { mutable, elem: Box::new(type_view(*elem)) },
        TypeExpr::Reference { lifetime, mutable, elem } => TypeV::Reference {
            lifetime: opt_string_view(lifetime),
            mutable,
            elem: Box::new(type_view(*elem)),
        },
        TypeExpr::Tuple { elems } => TypeV::Tuple { elems: types_view(elems@) },
        TypeExpr::Macro(m) => TypeV::Macro(m@),
        TypeExpr::Other(ts) => TypeV::Other(tokens_view(ts@)),
    }
}

pub open spec fn types_view(ts: Seq<TypeExpr>) -> Seq<TypeV>
    decreases ts,
{
    Seq::new(
        ts.len(),
        |i: int|
            if 0 <= i < ts.len() {
                type_view(ts[i])
            } else {
                TypeV::Other(Seq::empty())
            },
    )
}

pub open spec fn segment_view(s: PathSegment) -> SegmentV
    decreases s,
{
    SegmentV { ident: s.ident@, args: types_view(s.args@) }
}

pub open spec fn segments_view(ss: Seq<PathSegment>) -> Seq<SegmentV>
    decreases ss,
{
    Seq::new(
        ss.len(),
        |i: int|
            if 0 <= i < ss.len() {
                segment_view(ss[i])
            } else {
                SegmentV { ident: Seq::empty(), args: Seq::empty() }
            },
    )
}

impl View for TypeExpr {
    type V = TypeV;

    open spec fn view(&self) -> TypeV {
        type_view(*self)
    }
}

impl View for PathSegment {
    type V = SegmentV;

    open spec fn view(&self) -> SegmentV {
        segment_view(*self)
    }
}

/// Every macro invocation of `t`, in walking order: generic arguments left
/// to right (outermost segment first), the element of arrays, slices,
/// pointers and references, tuple elements left to right. Raw-token shapes
/// and the arguments of an invocation are not entered.
pub open spec fn macros_in(t: TypeV) -> Seq<MacroV>
    decreases t,
{
    match t {
        TypeV::Path { segments, .. } => macros_in_segments(segments),
        TypeV::Qualified { segments, .. } => macros_in_segments(segments),
        TypeV::Array { elem, .. } => macros_in(*elem),
        TypeV::Slice { elem } => macros_in(*elem),
        TypeV::Ptr { elem, .. } => macros_in(*elem),
        TypeV::Reference { elem, .. } => macros_in(*elem),
        TypeV::Tuple { elems } => macros_in_types(elems),
        TypeV::Macro(m) => seq![m],
        TypeV::Other(_) => Seq::empty(),
    }
}

pub open spec fn macros_in_types(ts: Seq<TypeV>) -> Seq<MacroV>
    decreases ts,
{
    if ts.len() == 0 {
        Seq::empty()
    } else {
        macros_in_types(ts.drop_last()) + macros_in(ts.last())
    }
}

pub open spec fn macros_in_segments(ss: Seq<SegmentV>) -> Seq<MacroV>
    decreases ss,
{
    if ss.len() == 0 {
        Seq::empty()
    } else {
        macros_in_segments(ss.drop_last()) + macros_in_types(ss.last().args)
    }
}

/// `acc` followed, in order of first occurrence, by each macro invocation of
/// `ms` that is not already there.
pub open spec fn add_distinct(acc: Seq<MacroV>, ms: Seq<MacroV>) -> Seq<MacroV>
    decreases ms.len(),
{
    if ms.len() == 0 {
        acc
    } else {
        let prev = add_distinct(acc, ms.drop_last());
        if prev.contains(ms.last()) {
            prev
        } else {
            prev.push(ms.last())
        }
    }
}

pub proof fn lemma_add_distinct_concat(acc: Seq<MacroV>, a: Seq<MacroV>, b: Seq<MacroV>)
    ensures
        add_distinct(acc, a + b) == add_distinct(add_distinct(acc, a), b),
    decreases b.len(),
{
    if b.len() == 0 {
        assert(a + b =~= a);
    } else {
        assert((a + b).drop_last() =~= a + b.drop_last());
        assert((a + b).last() == b.last());
        lemma_add_distinct_concat(acc, a, b.drop_last());
    }
}

impl MacroCall {
    /// Structural equality: same path, same delimiter, same argument tokens.
    pub fn same_as(&self, other: &MacroCall) -> (r: bool)
        ensures
            r == (self@ == other@),
    {
        tokens_equal(&self.path, &other.path) && self.delimiter == other.delimiter
            && tokens_equal(&self.tokens, &other.tokens)
    }

    /// A structurally equal copy.
    pub fn duplicate(&self) -> (r: MacroCall)
        ensures
            r@ == self@,
    {
        MacroCall {
            path: copy_tokens(&self.path),
            delimiter: self.delimiter,
            tokens: copy_tokens(&self.tokens),
        }
    }
}

/// Whether `found` already holds an invocation structurally equal to `m`.
pub fn contains_macro(found: &Vec<MacroCall>, m: &MacroCall) -> (r: bool)
    ensures
        r == macros_view(found@).contains(m@),
{
    let mut i: usize = 0;
    while i < found.len()
        invariant
            i <= found.len(),
            forall|j: int| 0 <= j < i ==> found@[j]@ != m@,
        decreases found.len() - i,
    {
        if found[i].same_as(m) {
            assert(macros_view(found@)[i as int] == m@);
            return true;
        }
        i = i + 1;
    }
    false
}

/// Appends to `found` each macro invocation of `ty` that it does not hold
/// yet, in walking order.
pub fn collect_macro_types_from_type(ty: &TypeExpr, found: &mut Vec<MacroCall>)
    ensures
        macros_view(final(found)@) == add_distinct(macros_view(old(found)@), macros_in(ty@)),
    decreases ty,
{
    match ty {
        TypeExpr::Macro(m) => {
            let ghost before = macros_view(found@);
            assert(seq![m@].drop_last() =~= Seq::<MacroV>::empty());
            assert(add_distinct(before, Seq::<MacroV>::empty()) == before);
            assert(seq![m@].last() == m@);
            if !contains_macro(found, m) {
                found.push(m.duplicate());
                assert(macros_view(found@) =~= before.push(m@));
            }
        },
        TypeExpr::Path { segments, .. } => {
            collect_from_segments(segments, found);
        },
        TypeExpr::Qualified { segments, .. } => {
            collect_from_segments(segments, found);
        },
        TypeExpr::Array { elem, .. } => {
            collect_macro_types_from_type(elem, found);
        },
        TypeExpr::Slice { elem } => {
            collect_macro_types_from_type(elem, found);
        },
        TypeExpr::Ptr { elem, .. } => {
            collect_macro_types_from_type(elem, found);
        },
        TypeExpr::Reference { elem, .. } => {
            collect_macro_types_from_type(elem, found);
        },
        TypeExpr::Tuple { elems } => {
            collect_from_types(elems, found);
        },
        TypeExpr::Other(_) => {},
    }
}

fn collect_from_types(ts: &Vec<TypeExpr>, found: &mut Vec<MacroCall>)
    ensures
        macros_view(final(found)@) == add_distinct(
            macros_view(old(found)@),
            macros_in_types(types_view(ts@)),
        ),
    decreases ts,
{
    let ghost start = macros_view(found@);
    let ghost tv = types_view(ts@);
    let mut i: usize = 0;
    while i < ts.len()
        invariant
            i <= ts.len(),
            tv == types_view(ts@),
            macros_view(found@) == add_distinct(start, macros_in_types(tv.take(i as int))),
        decreases ts.len() - i,
    {
        proof {
            let pre = tv.take(i + 1);
            assert(pre.drop_last() =~= tv.take(i as int));
            assert(pre.last() == ts@[i as int]@);
            lemma_add_distinct_concat(start, macros_in_types(tv.take(i as int)), macros_in(ts@[i as int]@));
        }
        collect_macro_types_from_type(&ts[i], found);
        i = i + 1;
    }
    assert(tv.take(ts.len() as int) =~= tv);
}

fn collect_from_segments(ss: &Vec<PathSegment>, found: &mut Vec<MacroCall>)
    ensures
        macros_view(final(found)@) == add_distinct(
            macros_view(old(found)@),
            macros_in_segments(segments_view(ss@)),
        ),
    decreases ss,
{
    let ghost start = macros_view(found@);
    let ghost sv = segments_view(ss@);
    let mut i: usize = 0;
    while i < ss.len()
        invariant
            i <= ss.len(),
            sv == segments_view(ss@),
            macros_view(found@) == add_distinct(start, macros_in_segments(sv.take(i as int))),
        decreases ss.len() - i,
    {
        proof {
            let pre = sv.take(i + 1);
            assert(pre.drop_last() =~= sv.take(i as int));
            assert(pre.last() == ss@[i as int]@);
            lemma_add_distinct_concat(
                start,
                macros_in_segments(sv.take(i as int)),
                macros_in_types(types_view(ss@[i as int].args@)),
            );
        }
        collect_from_types(&ss[i].args, found);
        i = i + 1;
    }
    assert(sv.take(ss.len() as int) =~= sv);
}

/// `t` with every macro invocation that has an alias in `aliases` replaced by
/// a reference to that alias, and everything else rebuilt as it was.
pub open spec fn rewrite_type(t: TypeV, aliases: Seq<AliasV>) -> TypeV
    decreases t,
{
    match t {
        TypeV::Macro(m) => match find_alias(aliases, m) {
            Some(a) => alias_ref(a),
            None => TypeV::Macro(m),
        },
        TypeV::Path { global, segments } => TypeV::Path {
            global,
            segments: rewrite_segments(segments, aliases),
        },
        TypeV::Qualified { qself, position, global, segments } => TypeV::Qualified {
            qself,
            position,
            global,
            segments: rewrite_segments(segments, aliases),
        },
        TypeV::Array { elem, len } => TypeV::Array {
            elem: Box::new(rewrite_type(*elem, aliases)),
            len,
        },
        TypeV::Slice { elem } => TypeV::Slice { elem: Box::new(rewrite_type(*elem, aliases)) },
        TypeV::Ptr { mutable, elem } => TypeV::Ptr {
            mutable,
            elem: Box::new(rewrite_type(*elem, aliases)),
        },
        TypeV::Reference { lifetime, mutable, elem } => TypeV::Reference {
            lifetime,
            mutable,
            elem: Box::new(rewrite_type(*elem, aliases)),
        },
        TypeV::Tuple { elems } => TypeV::Tuple { elems: rewrite_types(elems, aliases) },
        TypeV::Other(ts) => TypeV::Other(ts),
    }
}

pub open spec fn rewrite_types(ts: Seq<TypeV>, aliases: Seq<AliasV>) -> Seq<TypeV>
    decreases ts,
{
    Seq::new(
        ts.len(),
        |i: int|
            if 0 <= i < ts.len() {
                rewrite_type(ts[i], aliases)
            } else {
                TypeV::Other(Seq::empty())
            },
    )
}

pub open spec fn rewrite_segments(ss: Seq<SegmentV>, aliases: Seq<AliasV>) -> Seq<SegmentV>
    decreases ss,
{
    Seq::new(
        ss.len(),
        |i: int|
            if 0 <= i < ss.len() {
                SegmentV { ident: ss[i].ident, args: rewrite_types(ss[i].args, aliases) }
            } else {
                SegmentV { ident: Seq::empty(), args: Seq::empty() }
            },
    )
}

/// Builds `ty` anew with each macro invocation that has an alias replaced by a
/// reference to it.
pub fn transform_type(ty: &TypeExpr, aliases: &Vec<AliasItem>) -> (r: TypeExpr)
    ensures
        r@ == rewrite_type(ty@, aliases_view(aliases@)),
    decreases ty,
{
    match ty {
        TypeExpr::Macro(m) => {
            match find_alias_index(aliases, m) {
                Some(i) => alias_reference(&aliases[i]),
                None => TypeExpr::Macro(m.duplicate()),
            }
        },
        TypeExpr::Path { global, segments } => {
            let segments = transform_segments(segments, aliases);
            TypeExpr::Path { global: *global, segments }
        },
        TypeExpr::Qualified { qself, position, global, segments } => {
            let segments = transform_segments(segments, aliases);
            TypeExpr::Qualified {
                qself: copy_tokens(qself),
                position: *position,
                global: *global,
                segments,
            }
        },
        TypeExpr::Array { elem, len } => {
            let elem = Box::new(transform_type(elem, aliases));
            TypeExpr::Array { elem, len: copy_tokens(len) }
        },
        TypeExpr::Slice { elem } => {
            let elem = Box::new(transform_type(elem, aliases));
            TypeExpr::Slice { elem }
        },
        TypeExpr::Ptr { mutable, elem } => {
            let elem = Box::new(transform_type(elem, aliases));
            TypeExpr::Ptr { mutable: *mutable, elem }
        },
        TypeExpr::Reference { lifetime, mutable, elem } => {
            let elem = Box::new(transform_type(elem, aliases));
            let lifetime = match lifetime {
                Some(l) => Some(l.clone()),
                None => None,
            };
            TypeExpr::Reference { lifetime, mutable: *mutable, elem }
        },
        TypeExpr::Tuple { elems } => {
            let elems = transform_types(elems, aliases);
            TypeExpr::Tuple { elems }
        },
        TypeExpr::Other(ts) => TypeExpr::Other(copy_tokens(ts)),
    }
}

fn transform_types(ts: &Vec<TypeExpr>, aliases: &Vec<AliasItem>) -> (r: Vec<TypeExpr>)
    ensures
        types_view(r@) == rewrite_types(types_view(ts@), aliases_view(aliases@)),
    decreases ts,
{
    let ghost av = aliases_view(aliases@);
    let mut r: Vec<TypeExpr> = Vec::new();
    let mut i: usize = 0;
    while i < ts.len()
        invariant
            i <= ts.len(),
            av == aliases_view(aliases@),
            r.len() == i,
            forall|j: int| 0 <= j < i ==> #[trigger] r@[j]@ == rewrite_type(ts@[j]@, av),
        decreases ts.len() - i,
    {
        r.push(transform_type(&ts[i], aliases));
        i = i + 1;
    }
    proof {
        let want = rewrite_types(types_view(ts@), av);
        assert forall|j: int| 0 <= j < r.len() implies #[trigger] types_view(r@)[j] == want[j] by {
            assert(r@[j]@ == rewrite_type(ts@[j]@, av));
        }
        assert(types_view(r@) =~= want);
    }
    r
}

fn transform_segments(ss: &Vec<PathSegment>, aliases: &Vec<AliasItem>) -> (r: Vec<PathSegment>)
    ensures
        segments_view(r@) == rewrite_segments(segments_view(ss@), aliases_view(aliases@)),
    decreases ss,
{
    let ghost av = aliases_view(aliases@);
    let ghost want = rewrite_segments(segments_view(ss@), av);
    let mut r: Vec<PathSegment> = Vec::new();
    let mut i: usize = 0;
    while i < ss.len()
        invariant
            i <= ss.len(),
            av == aliases_view(aliases@),
            want == rewrite_segments(segments_view(ss@), av),
            r.len() == i,
            forall|j: int| 0 <= j < i ==> #[trigger] r@[j]@ == want[j],
        decreases ss.len() - i,
    {
        let args = transform_types(&ss[i].args, aliases);
        let seg = PathSegment { ident: ss[i].ident.clone(), args };
        assert(seg@ == want[i as int]);
        r.push(seg);
        i = i + 1;
    }
    proof {
        assert forall|j: int| 0 <= j < r.len() implies #[trigger] segments_view(r@)[j] == want[j] by {
            assert(r@[j]@ == want[j]);
        }
        assert(segments_view(r@) =~= want);
    }
    r
}

} // verus!
