//! Properties of the transformation, stated over the specification functions
//! that the executable functions' contracts use, and proved.
use vstd::prelude::*;
use crate::generics::{ParamV, param_used, used_params, strip_default, alias_params, param_name};
use crate::types::{
    MacroV, TypeV, SegmentV, macros_in, macros_in_types, macros_in_segments, add_distinct,
    rewrite_type, rewrite_types, rewrite_segments,
};
use crate::alias::{AliasV, find_alias, alias_ref, param_arg};
use crate::decl::{
    DeclV, FieldV, FieldsV, BodyV, VariantV, decl_macros, distinct_macros, field_list_macros, field_seq,
    rewrite_decl, rewrite_fields, rewrite_field_list,
};
use crate::expand::{expand, planned_aliases, alias_for};

verus! {

proof fn lemma_add_distinct(acc: Seq<MacroV>, ms: Seq<MacroV>)
    ensures
        acc.no_duplicates() ==> add_distinct(acc, ms).no_duplicates(),
        forall|x: MacroV| #[trigger]
            add_distinct(acc, ms).contains(x) <==> (acc.contains(x) || ms.contains(x)),
    decreases ms.len(),
{
    if ms.len() > 0 {
        let init = ms.drop_last();
        let last = ms.last();
        let prev = add_distinct(acc, init);
        lemma_add_distinct(acc, init);
        assert forall|x: MacroV| #[trigger]
            add_distinct(acc, ms).contains(x) <==> (acc.contains(x) || ms.contains(x)) by {
            assert(prev.contains(x) <==> (acc.contains(x) || init.contains(x)));
            if ms.contains(x) {
                let i = choose|i: int| 0 <= i < ms.len() && ms[i] == x;
                if i < ms.len() - 1 {
                    assert(init[i] == x);
                }
            }
            if init.contains(x) {
                let i = choose|i: int| 0 <= i < init.len() && init[i] == x;
                assert(ms[i] == x);
            }
            assert(ms[ms.len() - 1] == last);
            if !prev.contains(last) {
                let next = prev.push(last);
                if next.contains(x) {
                    let i = choose|i: int| 0 <= i < next.len() && next[i] == x;
                    if i < prev.len() {
                        assert(prev[i] == x);
                    }
                }
                if prev.contains(x) {
                    let i = choose|i: int| 0 <= i < prev.len() && prev[i] == x;
                    assert(next[i] == x);
                }
                assert(next[prev.len() as int] == last);
            }
        }
    }
}

/// The distinct invocations of a declaration are pairwise different, and are
/// exactly the invocations that occur in it.
proof fn lemma_distinct_macros(d: DeclV)
    ensures
        distinct_macros(d).no_duplicates(),
        forall|m: MacroV| #[trigger] distinct_macros(d).contains(m) <==> decl_macros(d).contains(m),
{
    lemma_add_distinct(Seq::empty(), decl_macros(d));
}

proof fn lemma_find_alias(aliases: Seq<AliasV>, i: int)
    requires
        0 <= i < aliases.len(),
        forall|j: int, k: int|
            0 <= j < k < aliases.len() ==> aliases[j].target != aliases[k].target,
    ensures
        find_alias(aliases, aliases[i].target) == Some(aliases[i]),
    decreases i,
{
    if i > 0 {
        let rest = aliases.drop_first();
        assert(rest[i - 1] == aliases[i]);
        lemma_find_alias(rest, i - 1);
    }
}

/// The planned aliases target the distinct invocations, in order.
proof fn lemma_planned_targets(d: DeclV, names: Seq<Seq<char>>)
    ensures
        planned_aliases(d, names).len() == distinct_macros(d).len(),
        forall|i: int|
            0 <= i < distinct_macros(d).len() ==> #[trigger] planned_aliases(d, names)[i] == alias_for(
                d,
                distinct_macros(d)[i],
                names[i],
            ),
        forall|j: int, k: int|
            0 <= j < k < planned_aliases(d, names).len() ==> planned_aliases(d, names)[j].target
                != planned_aliases(d, names)[k].target,
{
    lemma_distinct_macros(d);
}

/// Index of an invocation among the distinct invocations of `d`.
proof fn lemma_key_index(d: DeclV, m: MacroV) -> (i: int)
    requires
        decl_macros(d).contains(m),
    ensures
        0 <= i < distinct_macros(d).len(),
        distinct_macros(d)[i] == m,
{
    lemma_distinct_macros(d);
    assert(distinct_macros(d).contains(m));
    choose|i: int| 0 <= i < distinct_macros(d).len() && distinct_macros(d)[i] == m
}

/// `id`, or `to[i]` when `id` is `from[i]` (the first such `i`).
pub open spec fn rename_ident(id: Seq<char>, from: Seq<Seq<char>>, to: Seq<Seq<char>>) -> Seq<char>
    decreases from.len(),
{
    if from.len() == 0 {
        id
    } else if from[0] == id {
        to[0]
    } else {
        rename_ident(id, from.drop_first(), to.drop_first())
    }
}

/// `t` with each path segment named `from[i]` renamed `to[i]`; raw tokens
/// and macro invocations are left as they are.
pub open spec fn rename_type(t: TypeV, from: Seq<Seq<char>>, to: Seq<Seq<char>>) -> TypeV
    decreases t,
{
    match t {
        TypeV::Path { global, segments } => TypeV::Path {
            global,
            segments: rename_segments(segments, from, to),
        },
        TypeV::Qualified { qself, position, global, segments } => TypeV::Qualified {
            qself,
            position,
            global,
            segments: rename_segments(segments, from, to),
        },
        TypeV::Array { elem, len } => TypeV::Array {
            elem: Box::new(rename_type(*elem, from, to)),
            len,
        },
        TypeV::Slice { elem } => TypeV::Slice { elem: Box::new(rename_type(*elem, from, to)) },
        TypeV::Ptr { mutable, elem } => TypeV::Ptr {
            mutable,
            elem: Box::new(rename_type(*elem, from, to)),
        },
        TypeV::Reference { lifetime, mutable, elem } => TypeV::Reference {
            lifetime,
            mutable,
            elem: Box::new(rename_type(*elem, from, to)),
        },
        TypeV::Tuple { elems } => TypeV::Tuple { elems: rename_types(elems, from, to) },
        TypeV::Macro(m) => TypeV::Macro(m),
        TypeV::Other(ts) => TypeV::Other(ts),
    }
}

pub open spec fn rename_types(ts: Seq<TypeV>, from: Seq<Seq<char>>, to: Seq<Seq<char>>) -> Seq<
    TypeV,
>
    decreases ts,
{
    Seq::new(
        ts.len(),
        |i: int|
            if 0 <= i < ts.len() {
                rename_type(ts[i], from, to)
            } else {
                TypeV::Other(Seq::empty())
            },
    )
}

pub open spec fn rename_segments(
    ss: Seq<SegmentV>,
    from: Seq<Seq<char>>,
    to: Seq<Seq<char>>,
) -> Seq<SegmentV>
    decreases ss,
{
    Seq::new(
        ss.len(),
        |i: int|
            if 0 <= i < ss.len() {
                SegmentV {
                    ident: rename_ident(ss[i].ident, from, to),
                    args: rename_types(ss[i].args, from, to),
                }
            } else {
                SegmentV { ident: Seq::empty(), args: Seq::empty() }
            },
    )
}

pub open spec fn rename_field_list(fs: Seq<FieldV>, from: Seq<Seq<char>>, to: Seq<Seq<char>>) -> Seq<
    FieldV,
> {
    fs.map_values(|f: FieldV| FieldV { name: f.name, ty: rename_type(f.ty, from, to) })
}

pub open spec fn rename_fields(f: FieldsV, from: Seq<Seq<char>>, to: Seq<Seq<char>>) -> FieldsV {
    match f {
        FieldsV::Named(fs) => FieldsV::Named(rename_field_list(fs, from, to)),
        FieldsV::Unnamed(fs) => FieldsV::Unnamed(rename_field_list(fs, from, to)),
        FieldsV::Unit => FieldsV::Unit,
    }
}

/// `d` with every field type renamed.
pub open spec fn rename_decl(d: DeclV, from: Seq<Seq<char>>, to: Seq<Seq<char>>) -> DeclV {
    DeclV {
        body: match d.body {
            BodyV::Record(fs) => BodyV::Record(rename_fields(fs, from, to)),
            BodyV::Variants(vs) => BodyV::Variants(
                vs.map_values(|v: VariantV| VariantV { name: v.name, fields: rename_fields(v.fields, from, to) }),
            ),
        },
        ..d
    }
}

proof fn lemma_rename_absent(id: Seq<char>, from: Seq<Seq<char>>, to: Seq<Seq<char>>)
    requires
        !from.contains(id),
    ensures
        rename_ident(id, from, to) == id,
    decreases from.len(),
{
    if from.len() > 0 {
        assert(from[0] != id);
        assert forall|x: Seq<char>| from.drop_first().contains(x) implies from.contains(x) by {
            let i = choose|i: int| 0 <= i < from.len() - 1 && from.drop_first()[i] == x;
            assert(from[i + 1] == x);
        }
        lemma_rename_absent(id, from.drop_first(), to.drop_first());
    }
}

proof fn lemma_rename_at(k: int, from: Seq<Seq<char>>, to: Seq<Seq<char>>)
    requires
        0 <= k < from.len(),
        from.len() <= to.len(),
        forall|j: int| 0 <= j < k ==> from[j] != from[k],
    ensures
        rename_ident(from[k], from, to) == to[k],
    decreases k,
{
    if k > 0 {
        assert(from[0] != from[k]);
        let f = from.drop_first();
        assert(f[k - 1] == from[k]);
        assert forall|j: int| 0 <= j < k - 1 implies #[trigger] f[j] != f[k - 1] by {
            assert(f[j] == from[j + 1]);
        }
        lemma_rename_at(k - 1, f, to.drop_first());
    }
}

/// Two alias lists with the same targets resolve an invocation at the same
/// position.
proof fn lemma_find_alias_pair(a1: Seq<AliasV>, a2: Seq<AliasV>, m: MacroV) -> (k: int)
    requires
        a1.len() == a2.len(),
        forall|i: int| 0 <= i < a1.len() ==> #[trigger] a1[i].target == a2[i].target,
    ensures
        find_alias(a1, m) is None ==> find_alias(a2, m) is None,
        find_alias(a1, m) is Some ==> {
            &&& 0 <= k < a1.len()
            &&& find_alias(a1, m) == Some(a1[k])
            &&& find_alias(a2, m) == Some(a2[k])
            &&& forall|j: int| 0 <= j < k ==> a1[j].target != m
        },
    decreases a1.len(),
{
    if a1.len() == 0 || a1[0].target == m {
        0
    } else {
        let r1 = a1.drop_first();
        let r2 = a2.drop_first();
        assert forall|i: int| 0 <= i < r1.len() implies #[trigger] r1[i].target == r2[i].target by {
            assert(a1[i + 1].target == a2[i + 1].target);
        }
        let k = lemma_find_alias_pair(r1, r2, m);
        if find_alias(a1, m) is Some {
            assert(r1[k] == a1[k + 1]);
            assert(r2[k] == a2[k + 1]);
            assert forall|j: int| 0 <= j < k + 1 implies a1[j].target != m by {
                if j > 0 {
                    assert(a1[j] == r1[j - 1]);
                }
            }
        }
        k + 1
    }
}

/// The conditions under which renaming turns the rewrite through `a1` into the
/// rewrite through `a2`, stated for a single invocation.
pub open spec fn renames_invocations(
    a1: Seq<AliasV>,
    a2: Seq<AliasV>,
    from: Seq<Seq<char>>,
    to: Seq<Seq<char>>,
) -> bool {
    forall|m: MacroV|
        rename_type(#[trigger] rewrite_type(TypeV::Macro(m), a1), from, to) == rewrite_type(
            TypeV::Macro(m),
            a2,
        )
}

proof fn lemma_rename_rewrite(
    t: TypeV,
    a1: Seq<AliasV>,
    a2: Seq<AliasV>,
    from: Seq<Seq<char>>,
    to: Seq<Seq<char>>,
)
    requires
        rename_type(t, from, to) == t,
        renames_invocations(a1, a2, from, to),
    ensures
        rename_type(rewrite_type(t, a1), from, to) == rewrite_type(t, a2),
    decreases t,
{
    match t {
        TypeV::Path { global, segments } => {
            lemma_rename_rewrite_segments(segments, a1, a2, from, to);
        },
        TypeV::Qualified { segments, .. } => {
            lemma_rename_rewrite_segments(segments, a1, a2, from, to);
        },
        TypeV::Array { elem, len } => {
            lemma_rename_rewrite(*elem, a1, a2, from, to);
        },
        TypeV::Slice { elem } => {
            lemma_rename_rewrite(*elem, a1, a2, from, to);
        },
        TypeV::Ptr { elem, .. } => {
            lemma_rename_rewrite(*elem, a1, a2, from, to);
        },
        TypeV::Reference { elem, .. } => {
            lemma_rename_rewrite(*elem, a1, a2, from, to);
        },
        TypeV::Tuple { elems } => {
            lemma_rename_rewrite_types(elems, a1, a2, from, to);
        },
        TypeV::Macro(m) => {
            assert(rename_type(rewrite_type(TypeV::Macro(m), a1), from, to) == rewrite_type(
                TypeV::Macro(m),
                a2,
            ));
        },
        TypeV::Other(_) => {},
    }
}

proof fn lemma_rename_rewrite_types(
    ts: Seq<TypeV>,
    a1: Seq<AliasV>,
    a2: Seq<AliasV>,
    from: Seq<Seq<char>>,
    to: Seq<Seq<char>>,
)
    requires
        rename_types(ts, from, to) == ts,
        renames_invocations(a1, a2, from, to),
    ensures
        rename_types(rewrite_types(ts, a1), from, to) == rewrite_types(ts, a2),
    decreases ts,
{
    assert forall|i: int| 0 <= i < ts.len() implies #[trigger] rename_types(
        rewrite_types(ts, a1),
        from,
        to,
    )[i] == rewrite_types(ts, a2)[i] by {
        assert(rename_types(ts, from, to)[i] == ts[i]);
        lemma_rename_rewrite(ts[i], a1, a2, from, to);
    }
    assert(rename_types(rewrite_types(ts, a1), from, to) =~= rewrite_types(ts, a2));
}

proof fn lemma_rename_rewrite_segments(
    ss: Seq<SegmentV>,
    a1: Seq<AliasV>,
    a2: Seq<AliasV>,
    from: Seq<Seq<char>>,
    to: Seq<Seq<char>>,
)
    requires
        rename_segments(ss, from, to) == ss,
        renames_invocations(a1, a2, from, to),
    ensures
        rename_segments(rewrite_segments(ss, a1), from, to) == rewrite_segments(ss, a2),
    decreases ss,
{
    assert forall|i: int| 0 <= i < ss.len() implies #[trigger] rename_segments(
        rewrite_segments(ss, a1),
        from,
        to,
    )[i] == rewrite_segments(ss, a2)[i] by {
        assert(rename_segments(ss, from, to)[i] == ss[i]);
        lemma_rename_rewrite_types(ss[i].args, a1, a2, from, to);
    }
    assert(rename_segments(rewrite_segments(ss, a1), from, to) =~= rewrite_segments(ss, a2));
}

/// The planned aliases under two name supplies agree but for their names, and
/// renaming turns each reference of the first into that of the second.
proof fn lemma_planned_renamed(d: DeclV, names1: Seq<Seq<char>>, names2: Seq<Seq<char>>)
    requires
        names1.len() >= distinct_macros(d).len(),
        names2.len() >= distinct_macros(d).len(),
        forall|i: int, j: int|
            0 <= i < j < distinct_macros(d).len() ==> #[trigger] names1[i] != #[trigger] names1[j],
        forall|q: ParamV|
            #![trigger d.generics.contains(q)]
            d.generics.contains(q) ==> !names1.take(distinct_macros(d).len() as int).contains(
                param_name(q),
            ),
    ensures
        renames_invocations(
            planned_aliases(d, names1),
            planned_aliases(d, names2),
            names1.take(distinct_macros(d).len() as int),
            names2.take(distinct_macros(d).len() as int),
        ),
{
    let k = distinct_macros(d).len() as int;
    let from = names1.take(k);
    let to = names2.take(k);
    let a1 = planned_aliases(d, names1);
    let a2 = planned_aliases(d, names2);
    lemma_planned_targets(d, names1);
    lemma_planned_targets(d, names2);
    assert forall|m: MacroV|
        rename_type(#[trigger] rewrite_type(TypeV::Macro(m), a1), from, to) == rewrite_type(
            TypeV::Macro(m),
            a2,
        ) by {
        let i = lemma_find_alias_pair(a1, a2, m);
        if find_alias(a1, m) is Some {
            let x = a1[i];
            let y = a2[i];
            assert(from[i] == names1[i]);
            assert forall|j: int| 0 <= j < i implies from[j] != from[i] by {
                assert(from[j] == names1[j]);
            }
            lemma_rename_at(i, from, to);
            assert(to[i] == names2[i]);
            let args = x.params.map_values(|p: ParamV| param_arg(p));
            assert(y.params == x.params);
            assert forall|j: int| 0 <= j < args.len() implies #[trigger] rename_types(
                args,
                from,
                to,
            )[j] == args[j] by {
                lemma_alias_param_origin(d, x.target.tokens, j);
                let q = choose|q: ParamV|
                    #![trigger d.generics.contains(q)]
                    d.generics.contains(q) && x.params[j] == strip_default(q);
                lemma_rename_absent(param_name(q), from, to);
                let one = seq![SegmentV { ident: param_name(q), args: Seq::<TypeV>::empty() }];
                assert(rename_types(Seq::<TypeV>::empty(), from, to) =~= Seq::<TypeV>::empty());
                assert(rename_segments(one, from, to) =~= one);
            }
            assert(rename_types(args, from, to) =~= args);
            let seg = SegmentV { ident: x.name, args };
            assert(rename_segments(seq![seg], from, to) =~= seq![SegmentV { ident: y.name, args }]);
        }
    }
}

/// Each parameter an alias declares is a declaration parameter without its
/// default.
proof fn lemma_alias_param_origin(d: DeclV, ts: Seq<crate::tokens::TokenV>, j: int)
    requires
        0 <= j < alias_params(ts, d.generics).len(),
    ensures
        exists|q: ParamV|
            #![trigger d.generics.contains(q)]
            d.generics.contains(q) && alias_params(ts, d.generics)[j] == strip_default(q),
{
    let pred = |p: ParamV| param_used(ts, p);
    let used = used_params(ts, d.generics);
    assert(used == d.generics.filter(pred));
    lemma_filter_member(d.generics, pred, j);
    let q = used[j];
    assert(d.generics.contains(q));
}

proof fn lemma_rename_rewrite_fields(
    f: FieldsV,
    a1: Seq<AliasV>,
    a2: Seq<AliasV>,
    from: Seq<Seq<char>>,
    to: Seq<Seq<char>>,
)
    requires
        rename_fields(f, from, to) == f,
        renames_invocations(a1, a2, from, to),
    ensures
        rename_fields(rewrite_fields(f, a1), from, to) == rewrite_fields(f, a2),
{
    let fs = field_seq(f);
    assert forall|i: int| 0 <= i < fs.len() implies rename_type(
        #[trigger] rewrite_type(fs[i].ty, a1),
        from,
        to,
    ) == rewrite_type(fs[i].ty, a2) by {
        assert(rename_field_list(fs, from, to)[i] == fs[i]);
        lemma_rename_rewrite(fs[i].ty, a1, a2, from, to);
    }
    match f {
        FieldsV::Named(fs) => {
            assert(rename_field_list(rewrite_field_list(fs, a1), from, to) =~= rewrite_field_list(
                fs,
                a2,
            ));
        },
        FieldsV::Unnamed(fs) => {
            assert(rename_field_list(rewrite_field_list(fs, a1), from, to) =~= rewrite_field_list(
                fs,
                a2,
            ));
        },
        FieldsV::Unit => {},
    }
}

/// Determinism: the expansion depends on the supplied names only through the
/// alias names. For two supplies, the second expansion is the first with
/// each alias renamed, and with each reference to it in the declaration
/// renamed, provided the first supply is made of pairwise different names
/// that the declaration does not already use as path segments or parameter
/// names. With the same names the two expansions are the very same.
pub proof fn lemma_deterministic(
    d: DeclV,
    derives: Seq<Seq<char>>,
    names1: Seq<Seq<char>>,
    names2: Seq<Seq<char>>,
)
    requires
        names1.len() >= distinct_macros(d).len(),
        names2.len() >= distinct_macros(d).len(),
        forall|i: int, j: int|
            0 <= i < j < distinct_macros(d).len() ==> #[trigger] names1[i] != #[trigger] names1[j],
        forall|q: ParamV|
            #![trigger d.generics.contains(q)]
            d.generics.contains(q) ==> !names1.take(distinct_macros(d).len() as int).contains(
                param_name(q),
            ),
        rename_decl(
            d,
            names1.take(distinct_macros(d).len() as int),
            names2.take(distinct_macros(d).len() as int),
        ) == d,
    ensures
        ({
            let e1 = expand(d, derives, names1);
            let e2 = expand(d, derives, names2);
            let k = e1.aliases.len() as int;
            &&& e1.derives == e2.derives
            &&& e2.aliases.len() == k
            &&& forall|i: int|
                0 <= i < k ==> #[trigger] e2.aliases[i] == AliasV {
                    name: names2[i],
                    ..e1.aliases[i]
                }
            &&& e2.decl == rename_decl(e1.decl, names1.take(k), names2.take(k))
            &&& names1.take(k) == names2.take(k) ==> e1 == e2
        }),
{
    let k = distinct_macros(d).len() as int;
    let from = names1.take(k);
    let to = names2.take(k);
    let a1 = planned_aliases(d, names1);
    let a2 = planned_aliases(d, names2);
    lemma_planned_targets(d, names1);
    lemma_planned_targets(d, names2);
    lemma_planned_renamed(d, names1, names2);
    let renamed = rename_decl(rewrite_decl(d, a1), from, to);
    match d.body {
        BodyV::Record(fs) => {
            lemma_rename_rewrite_fields(fs, a1, a2, from, to);
        },
        BodyV::Variants(vs) => {
            assert forall|i: int| 0 <= i < vs.len() implies #[trigger] rename_fields(
                rewrite_fields(vs[i].fields, a1),
                from,
                to,
            ) == rewrite_fields(vs[i].fields, a2) by {
                let orig = vs.map_values(
                    |v: VariantV| VariantV { name: v.name, fields: rename_fields(v.fields, from, to) },
                );
                assert(orig[i] == vs[i]);
                lemma_rename_rewrite_fields(vs[i].fields, a1, a2, from, to);
            }
            assert(renamed.body->Variants_0 =~= rewrite_decl(d, a2).body->Variants_0);
        },
    }
    assert(renamed == rewrite_decl(d, a2));
    if from == to {
        assert forall|i: int| 0 <= i < k implies names1[i] == names2[i] by {
            assert(from[i] == to[i]);
        }
        assert(a1 =~= a2);
    }
}

/// Deduplication: an invocation that occurs in the declaration, once or in
/// several fields, has exactly one alias, and every occurrence of it is
/// replaced by the reference to that alias.
pub proof fn lemma_dedup(d: DeclV, derives: Seq<Seq<char>>, names: Seq<Seq<char>>, m: MacroV)
    requires
        names.len() >= distinct_macros(d).len(),
        decl_macros(d).contains(m),
    ensures
        ({
            let aliases = expand(d, derives, names).aliases;
            &&& exists|i: int|
                0 <= i < aliases.len() && #[trigger] aliases[i].target == m && rewrite_type(
                    TypeV::Macro(m),
                    aliases,
                ) == alias_ref(aliases[i])
            &&& forall|i: int, j: int|
                0 <= i < aliases.len() && 0 <= j < aliases.len() && #[trigger] aliases[i].target == m
                    && #[trigger] aliases[j].target == m ==> i == j
        }),
{
    let aliases = planned_aliases(d, names);
    lemma_planned_targets(d, names);
    let i = lemma_key_index(d, m);
    assert(aliases[i].target == m);
    lemma_find_alias(aliases, i);
    assert forall|a: int, b: int|
        0 <= a < aliases.len() && 0 <= b < aliases.len() && #[trigger] aliases[a].target == m
            && #[trigger] aliases[b].target == m implies a == b by {
        if a < b {
            assert(aliases[a].target != aliases[b].target);
        } else if b < a {
            assert(aliases[b].target != aliases[a].target);
        }
    }
}

/// Distinctness: two different invocations of one declaration get two
/// different aliases with different names, and so different references,
/// provided the supplied names are pairwise different.
pub proof fn lemma_distinct(
    d: DeclV,
    derives: Seq<Seq<char>>,
    names: Seq<Seq<char>>,
    m1: MacroV,
    m2: MacroV,
)
    requires
        names.len() >= distinct_macros(d).len(),
        forall|i: int, j: int|
            0 <= i < j < distinct_macros(d).len() ==> #[trigger] names[i] != #[trigger] names[j],
        decl_macros(d).contains(m1),
        decl_macros(d).contains(m2),
        m1 != m2,
    ensures
        ({
            let aliases = expand(d, derives, names).aliases;
            exists|i: int, j: int|
                {
                    &&& 0 <= i < aliases.len()
                    &&& 0 <= j < aliases.len()
                    &&& i != j
                    &&& #[trigger] aliases[i].target == m1
                    &&& #[trigger] aliases[j].target == m2
                    &&& aliases[i].name != aliases[j].name
                    &&& rewrite_type(TypeV::Macro(m1), aliases) == alias_ref(aliases[i])
                    &&& rewrite_type(TypeV::Macro(m2), aliases) == alias_ref(aliases[j])
                    &&& rewrite_type(TypeV::Macro(m1), aliases) != rewrite_type(
                        TypeV::Macro(m2),
                        aliases,
                    )
                }
        }),
{
    let aliases = planned_aliases(d, names);
    lemma_planned_targets(d, names);
    let i = lemma_key_index(d, m1);
    let j = lemma_key_index(d, m2);
    lemma_find_alias(aliases, i);
    lemma_find_alias(aliases, j);
    assert(i != j);
    if i < j {
        assert(names[i] != names[j]);
    } else {
        assert(names[j] != names[i]);
    }
    let r1 = alias_ref(aliases[i]);
    let r2 = alias_ref(aliases[j]);
    assert(r1->Path_segments[0].ident != r2->Path_segments[0].ident);
    assert(aliases[i].target == m1 && aliases[j].target == m2);
    assert(rewrite_type(TypeV::Macro(m1), aliases) == r1);
    assert(rewrite_type(TypeV::Macro(m2), aliases) == r2);
    assert(aliases[i].name != aliases[j].name);
    assert(expand(d, derives, names).aliases == aliases);
    assert({
        &&& 0 <= i < aliases.len()
        &&& 0 <= j < aliases.len()
        &&& i != j
        &&& aliases[i].target == m1
        &&& aliases[j].target == m2
        &&& aliases[i].name != aliases[j].name
        &&& rewrite_type(TypeV::Macro(m1), aliases) == alias_ref(aliases[i])
        &&& rewrite_type(TypeV::Macro(m2), aliases) == alias_ref(aliases[j])
        &&& rewrite_type(TypeV::Macro(m1), aliases) != rewrite_type(TypeV::Macro(m2), aliases)
    });
}

/// Minimization is sound and complete with respect to the lexical test: each
/// parameter an alias declares is a parameter of the declaration, stripped
/// of its default, that the invocation's tokens mention; and each parameter
/// of the declaration that the tokens mention is declared by the alias.
pub proof fn lemma_minimization(d: DeclV, derives: Seq<Seq<char>>, names: Seq<Seq<char>>, i: int)
    requires
        names.len() >= distinct_macros(d).len(),
        0 <= i < expand(d, derives, names).aliases.len(),
    ensures
        ({
            let a = expand(d, derives, names).aliases[i];
            &&& forall|j: int|
                0 <= j < a.params.len() ==> param_used(a.target.tokens, #[trigger] a.params[j])
                    && exists|q: ParamV|
                    #![trigger d.generics.contains(q)]
                    d.generics.contains(q) && a.params[j] == strip_default(q) && param_used(
                        a.target.tokens,
                        q,
                    )
            &&& forall|q: ParamV|
                #![trigger d.generics.contains(q)]
                d.generics.contains(q) && param_used(a.target.tokens, q) ==> a.params.contains(
                    strip_default(q),
                )
        }),
{
    lemma_planned_targets(d, names);
    let a = planned_aliases(d, names)[i];
    let ts = a.target.tokens;
    let pred = |p: ParamV| param_used(ts, p);
    let used = used_params(ts, d.generics);
    assert(a.params == alias_params(ts, d.generics));
    assert(used == d.generics.filter(pred));
    d.generics.lemma_filter_len(pred);
    assert forall|j: int| 0 <= j < a.params.len() implies param_used(ts, #[trigger] a.params[j])
        && exists|q: ParamV|
        #![trigger d.generics.contains(q)]
        d.generics.contains(q) && a.params[j] == strip_default(q) && param_used(ts, q) by {
        let q = used[j];
        d.generics.lemma_filter_pred(pred, j);
        lemma_filter_member(d.generics, pred, j);
        assert(a.params[j] == strip_default(q));
        lemma_strip_keeps_use(ts, q);
    }
    assert forall|q: ParamV| #![trigger d.generics.contains(q)]
        d.generics.contains(q) && param_used(ts, q) implies a.params.contains(strip_default(q)) by {
        let k = choose|k: int| 0 <= k < d.generics.len() && d.generics[k] == q;
        d.generics.lemma_filter_contains(pred, k);
        let j = choose|j: int| 0 <= j < used.len() && used[j] == q;
        assert(a.params[j] == strip_default(q));
    }
}

proof fn lemma_filter_member(s: Seq<ParamV>, pred: spec_fn(ParamV) -> bool, j: int)
    requires
        0 <= j < s.filter(pred).len(),
    ensures
        s.contains(s.filter(pred)[j]),
    decreases s.len(),
{
    reveal(Seq::filter);
    if s.len() > 0 {
        let prev = s.drop_last().filter(pred);
        if j < prev.len() {
            if pred(s.last()) {
                assert(s.filter(pred)[j] == prev[j]);
            }
            lemma_filter_member(s.drop_last(), pred, j);
            let k = choose|k: int| 0 <= k < s.len() - 1 && s.drop_last()[k] == prev[j];
            assert(s[k] == prev[j]);
        } else {
            assert(s.filter(pred)[j] == s.last());
            assert(s[s.len() - 1] == s.last());
        }
    }
}

proof fn lemma_strip_keeps_use(ts: Seq<crate::tokens::TokenV>, q: ParamV)
    ensures
        param_used(ts, strip_default(q)) == param_used(ts, q),
{
}

proof fn lemma_macros_in_types_part(ts: Seq<TypeV>, i: int)
    requires
        0 <= i < ts.len(),
        macros_in_types(ts).len() == 0,
    ensures
        macros_in(ts[i]).len() == 0,
    decreases ts.len(),
{
    if i < ts.len() - 1 {
        assert(ts.drop_last()[i] == ts[i]);
        lemma_macros_in_types_part(ts.drop_last(), i);
    }
}

proof fn lemma_macros_in_segments_part(ss: Seq<SegmentV>, i: int)
    requires
        0 <= i < ss.len(),
        macros_in_segments(ss).len() == 0,
    ensures
        macros_in_types(ss[i].args).len() == 0,
    decreases ss.len(),
{
    if i < ss.len() - 1 {
        assert(ss.drop_last()[i] == ss[i]);
        lemma_macros_in_segments_part(ss.drop_last(), i);
    }
}

/// Structural preservation: a type without macro invocations is rewritten to
/// itself, whatever the aliases.
pub proof fn lemma_rewrite_preserves(t: TypeV, aliases: Seq<AliasV>)
    requires
        macros_in(t).len() == 0,
    ensures
        rewrite_type(t, aliases) == t,
    decreases t,
{
    match t {
        TypeV::Path { segments, .. } => {
            lemma_rewrite_segments_preserves(segments, aliases);
        },
        TypeV::Qualified { segments, .. } => {
            lemma_rewrite_segments_preserves(segments, aliases);
        },
        TypeV::Array { elem, .. } => {
            lemma_rewrite_preserves(*elem, aliases);
        },
        TypeV::Slice { elem } => {
            lemma_rewrite_preserves(*elem, aliases);
        },
        TypeV::Ptr { elem, .. } => {
            lemma_rewrite_preserves(*elem, aliases);
        },
        TypeV::Reference { elem, .. } => {
            lemma_rewrite_preserves(*elem, aliases);
        },
        TypeV::Tuple { elems } => {
            lemma_rewrite_types_preserves(elems, aliases);
        },
        TypeV::Macro(_) => {},
        TypeV::Other(_) => {},
    }
}

/// A sequence of types without macro invocations is rewritten to itself.
pub proof fn lemma_rewrite_types_preserves(ts: Seq<TypeV>, aliases: Seq<AliasV>)
    requires
        macros_in_types(ts).len() == 0,
    ensures
        rewrite_types(ts, aliases) == ts,
    decreases ts,
{
    assert forall|i: int| 0 <= i < ts.len() implies #[trigger] rewrite_types(ts, aliases)[i]
        == ts[i] by {
        lemma_macros_in_types_part(ts, i);
        lemma_rewrite_preserves(ts[i], aliases);
    }
    assert(rewrite_types(ts, aliases) =~= ts);
}

proof fn lemma_rewrite_segments_preserves(ss: Seq<SegmentV>, aliases: Seq<AliasV>)
    requires
        macros_in_segments(ss).len() == 0,
    ensures
        rewrite_segments(ss, aliases) == ss,
    decreases ss,
{
    assert forall|i: int| 0 <= i < ss.len() implies #[trigger] rewrite_segments(ss, aliases)[i]
        == ss[i] by {
        lemma_macros_in_segments_part(ss, i);
        lemma_rewrite_types_preserves(ss[i].args, aliases);
    }
    assert(rewrite_segments(ss, aliases) =~= ss);
}

proof fn lemma_plain_field_in(f: FieldsV, aliases: Seq<AliasV>, i: int)
    requires
        0 <= i < field_seq(f).len(),
        macros_in(field_seq(f)[i].ty).len() == 0,
    ensures
        field_seq(rewrite_fields(f, aliases)).len() == field_seq(f).len(),
        field_seq(rewrite_fields(f, aliases))[i] == field_seq(f)[i],
{
    lemma_rewrite_preserves(field_seq(f)[i].ty, aliases);
}

/// Structural preservation in a declaration: a field, of the record or of
/// variant `v`, whose type holds no macro invocation comes out of the
/// expansion exactly as it went in.
pub proof fn lemma_plain_field_kept(
    d: DeclV,
    derives: Seq<Seq<char>>,
    names: Seq<Seq<char>>,
    v: int,
    i: int,
)
    requires
        names.len() >= distinct_macros(d).len(),
        d.body matches BodyV::Record(fs) ==> 0 <= i < field_seq(fs).len() && macros_in(
            field_seq(fs)[i].ty,
        ).len() == 0,
        d.body matches BodyV::Variants(vs) ==> 0 <= v < vs.len() && 0 <= i < field_seq(
            vs[v].fields,
        ).len() && macros_in(field_seq(vs[v].fields)[i].ty).len() == 0,
    ensures
        ({
            let out = expand(d, derives, names).decl.body;
            &&& d.body matches BodyV::Record(fs) ==> out matches BodyV::Record(gs) && field_seq(
                gs,
            )[i] == field_seq(fs)[i]
            &&& d.body matches BodyV::Variants(vs) ==> out matches BodyV::Variants(ws) && ws.len()
                == vs.len() && ws[v].name == vs[v].name && field_seq(ws[v].fields)[i] == field_seq(
                vs[v].fields,
            )[i]
        }),
{
    let aliases = planned_aliases(d, names);
    match d.body {
        BodyV::Record(fs) => {
            lemma_plain_field_in(fs, aliases, i);
        },
        BodyV::Variants(vs) => {
            lemma_plain_field_in(vs[v].fields, aliases, i);
        },
    }
}

proof fn lemma_macros_in_types_concat(a: Seq<TypeV>, b: Seq<TypeV>)
    ensures
        macros_in_types(a + b) == macros_in_types(a) + macros_in_types(b),
    decreases b.len(),
{
    if b.len() == 0 {
        assert(a + b =~= a);
        assert(macros_in_types(a) + macros_in_types(b) =~= macros_in_types(a));
    } else {
        assert((a + b).drop_last() =~= a + b.drop_last());
        assert((a + b).last() == b.last());
        lemma_macros_in_types_concat(a, b.drop_last());
        assert(macros_in_types(a + b) =~= macros_in_types(a) + macros_in_types(b));
    }
}

/// The type `[(pre.., Outer<apre.., m, apost..>, post..); len]` with `m` at
/// its third level of nesting.
pub open spec fn nested_type(
    pre: Seq<TypeV>,
    post: Seq<TypeV>,
    global: bool,
    outer: Seq<char>,
    apre: Seq<TypeV>,
    inner: TypeV,
    apost: Seq<TypeV>,
    len: Seq<crate::tokens::TokenV>,
) -> TypeV {
    let path = TypeV::Path {
        global,
        segments: seq![SegmentV { ident: outer, args: apre + seq![inner] + apost }],
    };
    TypeV::Array { elem: Box::new(TypeV::Tuple { elems: pre + seq![path] + post }), len }
}

proof fn lemma_single_in_middle(pre: Seq<TypeV>, x: TypeV, post: Seq<TypeV>, aliases: Seq<AliasV>)
    requires
        macros_in_types(pre).len() == 0,
        macros_in_types(post).len() == 0,
    ensures
        macros_in_types(pre + seq![x] + post) == macros_in(x),
        rewrite_types(pre + seq![x] + post, aliases) == pre + seq![rewrite_type(x, aliases)] + post,
{
    let one = seq![x];
    lemma_macros_in_types_concat(pre, one);
    lemma_macros_in_types_concat(pre + one, post);
    assert(one.drop_last() =~= Seq::<TypeV>::empty());
    assert(one.last() == x);
    assert(macros_in_types(Seq::<TypeV>::empty()) == Seq::<MacroV>::empty());
    assert(macros_in_types(one) =~= macros_in(x));
    assert(macros_in_types(pre + one + post) =~= macros_in(x));
    let all = pre + one + post;
    let want = pre + seq![rewrite_type(x, aliases)] + post;
    assert forall|i: int| 0 <= i < all.len() implies #[trigger] rewrite_types(all, aliases)[i]
        == want[i] by {
        if i < pre.len() {
            lemma_macros_in_types_part(pre, i);
            lemma_rewrite_preserves(pre[i], aliases);
        } else if i > pre.len() {
            lemma_macros_in_types_part(post, i - pre.len() - 1);
            lemma_rewrite_preserves(post[i - pre.len() - 1], aliases);
        }
    }
    assert(rewrite_types(all, aliases) =~= want);
}

proof fn lemma_single_segment(seg: SegmentV, aliases: Seq<AliasV>)
    ensures
        macros_in_segments(seq![seg]) == macros_in_types(seg.args),
        rewrite_segments(seq![seg], aliases) == seq![SegmentV { ident: seg.ident, args: rewrite_types(seg.args, aliases) }],
{
    assert(seq![seg].drop_last() =~= Seq::<SegmentV>::empty());
    assert(seq![seg].last() == seg);
    assert(macros_in_segments(Seq::<SegmentV>::empty()) == Seq::<MacroV>::empty());
    assert(macros_in_segments(seq![seg]) =~= macros_in_types(seg.args));
    assert(rewrite_segments(seq![seg], aliases) =~= seq![SegmentV { ident: seg.ident, args: rewrite_types(seg.args, aliases) }]);
}

proof fn lemma_nested_type(
    pre: Seq<TypeV>,
    post: Seq<TypeV>,
    global: bool,
    outer: Seq<char>,
    apre: Seq<TypeV>,
    inner: TypeV,
    apost: Seq<TypeV>,
    len: Seq<crate::tokens::TokenV>,
    aliases: Seq<AliasV>,
)
    requires
        macros_in_types(pre).len() == 0,
        macros_in_types(post).len() == 0,
        macros_in_types(apre).len() == 0,
        macros_in_types(apost).len() == 0,
    ensures
        macros_in(nested_type(pre, post, global, outer, apre, inner, apost, len)) == macros_in(inner),
        rewrite_type(nested_type(pre, post, global, outer, apre, inner, apost, len), aliases)
            == nested_type(pre, post, global, outer, apre, rewrite_type(inner, aliases), apost, len),
{
    let args = apre + seq![inner] + apost;
    let seg = SegmentV { ident: outer, args };
    let path = TypeV::Path { global, segments: seq![seg] };
    lemma_single_in_middle(apre, inner, apost, aliases);
    lemma_single_segment(seg, aliases);
    lemma_single_in_middle(pre, path, post, aliases);
    let tup = TypeV::Tuple { elems: pre + seq![path] + post };
    assert(macros_in(path) == macros_in_types(args));
    assert(macros_in(tup) == macros_in(path));
    let new_args = apre + seq![rewrite_type(inner, aliases)] + apost;
    let new_path = TypeV::Path {
        global,
        segments: seq![SegmentV { ident: outer, args: new_args }],
    };
    assert(rewrite_type(path, aliases) == new_path);
    let new_tup = TypeV::Tuple { elems: pre + seq![new_path] + post };
    assert(rewrite_type(tup, aliases) == new_tup);
    let t = nested_type(pre, post, global, outer, apre, inner, apost, len);
    assert(t == TypeV::Array { elem: Box::new(tup), len });
    assert(macros_in(t) == macros_in(tup));
    assert(rewrite_type(t, aliases) == TypeV::Array { elem: Box::new(new_tup), len });
}

/// Nesting: an invocation three levels deep, as a generic argument inside a
/// tuple inside an array, in a declaration's only field, gets the one alias
/// of the expansion, and the field is rebuilt with the reference to it at
/// exactly that place and everything around it unchanged.
pub proof fn lemma_nested(
    d: DeclV,
    derives: Seq<Seq<char>>,
    names: Seq<Seq<char>>,
    field: Option<Seq<char>>,
    pre: Seq<TypeV>,
    post: Seq<TypeV>,
    global: bool,
    outer: Seq<char>,
    apre: Seq<TypeV>,
    m: MacroV,
    apost: Seq<TypeV>,
    len: Seq<crate::tokens::TokenV>,
)
    requires
        names.len() >= 1,
        macros_in_types(pre).len() == 0,
        macros_in_types(post).len() == 0,
        macros_in_types(apre).len() == 0,
        macros_in_types(apost).len() == 0,
        d.body == BodyV::Record(
            FieldsV::Named(
                seq![FieldV { name: field, ty: nested_type(pre, post, global, outer, apre, TypeV::Macro(m), apost, len) }],
            ),
        ),
    ensures
        ({
            let e = expand(d, derives, names);
            &&& e.aliases.len() == 1
            &&& e.aliases[0] == alias_for(d, m, names[0])
            &&& e.decl.body == BodyV::Record(
                FieldsV::Named(
                    seq![FieldV { name: field, ty: nested_type(pre, post, global, outer, apre, alias_ref(e.aliases[0]), apost, len) }],
                ),
            )
        }),
{
    let t = nested_type(pre, post, global, outer, apre, TypeV::Macro(m), apost, len);
    lemma_nested_type(pre, post, global, outer, apre, TypeV::Macro(m), apost, len, Seq::empty());
    assert(macros_in(TypeV::Macro(m)) == seq![m]);
    let fs = seq![FieldV { name: field, ty: t }];
    assert(fs.drop_last() =~= Seq::<FieldV>::empty());
    assert(fs.last().ty == t);
    assert(field_list_macros(Seq::<FieldV>::empty()) == Seq::<MacroV>::empty());
    assert(field_list_macros(fs) =~= seq![m]);
    assert(decl_macros(d) =~= seq![m]);
    assert(seq![m].drop_last() =~= Seq::<MacroV>::empty());
    assert(seq![m].last() == m);
    assert(add_distinct(Seq::empty(), Seq::<MacroV>::empty()) == Seq::<MacroV>::empty());
    assert(distinct_macros(d) =~= seq![m]);
    let aliases = planned_aliases(d, names);
    assert(aliases =~= seq![alias_for(d, m, names[0])]);
    let a = aliases[0];
    assert(find_alias(aliases, m) == Some(a));
    lemma_nested_type(pre, post, global, outer, apre, TypeV::Macro(m), apost, len, aliases);
    let new_t = nested_type(pre, post, global, outer, apre, alias_ref(a), apost, len);
    assert(rewrite_type(t, aliases) == new_t);
    let e = expand(d, derives, names);
    assert(e.decl.body->Record_0->Named_0 =~= seq![FieldV { name: field, ty: new_t }]);
}

} // verus!
