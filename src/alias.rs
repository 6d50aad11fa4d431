//! Alias items: the hidden type alias that stands for one distinct macro
//! invocation, and the type expression that refers to it.
use vstd::prelude::*;
use crate::tokens::{TokenTree, TokenV, Spacing, lemma_tokens_view};
use crate::generics::{GenericParam, ParamV, params_view};
use crate::types::{MacroCall, MacroV, PathSegment, SegmentV, TypeExpr, TypeV, segments_view};

verus! {

/// `type name<params> = target;`, emitted hidden from documentation.
#[derive(Debug)]
pub struct AliasItem {
    pub name: String,
    pub params: Vec<GenericParam>,
    pub target: MacroCall,
}

pub struct AliasV {
    pub name: Seq<char>,
    pub params: Seq<ParamV>,
    pub target: MacroV,
}

impl View for AliasItem {
    type V = AliasV;

    open spec fn view(&self) -> AliasV {
        AliasV { name: self.name@, params: params_view(self.params@), target: self.target@ }
    }
}

pub open spec fn aliases_view(s: Seq<AliasItem>) -> Seq<AliasV> {
    s.map_values(|a: AliasItem| a@)
}

/// The first alias whose target is `m`.
pub open spec fn find_alias(aliases: Seq<AliasV>, m: MacroV) -> Option<AliasV>
    decreases aliases.len(),
{
    if aliases.len() == 0 {
        None
    } else if aliases[0].target == m {
        Some(aliases[0])
    } else {
        find_alias(aliases.drop_first(), m)
    }
}

/// The plain path type `name`.
pub open spec fn name_type(name: Seq<char>) -> TypeV {
    TypeV::Path { global: false, segments: seq![SegmentV { ident: name, args: Seq::empty() }] }
}

/// A declared parameter used as a generic argument: `'a` for a lifetime,
/// the bare name for a type or const parameter.
pub open spec fn param_arg(p: ParamV) -> TypeV {
    match p {
        ParamV::Lifetime { name, .. } => TypeV::Other(
            seq![TokenV::Punct('\'', Spacing::Joint), TokenV::Ident(name)],
        ),
        ParamV::Type { name, .. } => name_type(name),
        ParamV::Const { name, .. } => name_type(name),
    }
}

/// `name<p1, p2, ...>` for the alias's own parameters, or the bare name when
/// it has none.
pub open spec fn alias_ref(a: AliasV) -> TypeV {
    TypeV::Path {
        global: false,
        segments: seq![SegmentV { ident: a.name, args: a.params.map_values(|p: ParamV| param_arg(p)) }],
    }
}

/// Finds the first alias whose target is structurally equal to `m`.
pub fn find_alias_index(aliases: &Vec<AliasItem>, m: &MacroCall) -> (r: Option<usize>)
    ensures
        match r {
            Some(i) => i < aliases.len() && find_alias(aliases_view(aliases@), m@) == Some(
                aliases@[i as int]@,
            ),
            None => find_alias(aliases_view(aliases@), m@) is None,
        },
{
    let ghost av = aliases_view(aliases@);
    assert(av.skip(0) =~= av);
    let mut i: usize = 0;
    while i < aliases.len()
        invariant
            i <= aliases.len(),
            av == aliases_view(aliases@),
            find_alias(av, m@) == find_alias(av.skip(i as int), m@),
        decreases aliases.len() - i,
    {
        let ghost rest = av.skip(i as int);
        assert(rest[0] == aliases@[i as int]@);
        if aliases[i].target.same_as(m) {
            return Some(i);
        }
        assert(rest.drop_first() =~= av.skip(i + 1));
        i = i + 1;
    }
    None
}

pub fn name_type_expr(name: &String) -> (r: TypeExpr)
    ensures
        r@ == name_type(name@),
{
    let seg = PathSegment { ident: name.clone(), args: Vec::new() };
    let ghost sv = SegmentV { ident: name@, args: Seq::empty() };
    assert(seg@.args =~= sv.args);
    assert(seg@ == sv);
    let mut segments: Vec<PathSegment> = Vec::new();
    segments.push(seg);
    proof {
        assert(segments@[0]@ == sv);
        assert(segments_view(segments@)[0] == sv);
        assert(segments_view(segments@) =~= seq![sv]);
    }
    TypeExpr::Path { global: false, segments }
}

pub fn param_argument(p: &GenericParam) -> (r: TypeExpr)
    ensures
        r@ == param_arg(p@),
{
    match p {
        GenericParam::Lifetime { name, .. } => {
            let mut ts: Vec<TokenTree> = Vec::new();
            ts.push(TokenTree::Punct('\'', Spacing::Joint));
            ts.push(TokenTree::Ident(name.clone()));
            proof {
                lemma_tokens_view(ts@);
            }
            let r = TypeExpr::Other(ts);
            assert(r@->Other_0 =~= seq![TokenV::Punct('\'', Spacing::Joint), TokenV::Ident(name@)]);
            r
        },
        GenericParam::Type { name, .. } => name_type_expr(name),
        GenericParam::Const { name, .. } => name_type_expr(name),
    }
}

/// The type expression that refers to alias `a`.
pub fn alias_reference(a: &AliasItem) -> (r: TypeExpr)
    ensures
        r@ == alias_ref(a@),
{
    let ghost want = a@.params.map_values(|p: ParamV| param_arg(p));
    let mut args: Vec<TypeExpr> = Vec::new();
    let mut i: usize = 0;
    while i < a.params.len()
        invariant
            i <= a.params.len(),
            want == a@.params.map_values(|p: ParamV| param_arg(p)),
            args.len() == i,
            forall|j: int| 0 <= j < i ==> #[trigger] args@[j]@ == want[j],
        decreases a.params.len() - i,
    {
        args.push(param_argument(&a.params[i]));
        i = i + 1;
    }
    let seg = PathSegment { ident: a.name.clone(), args };
    let ghost sv = SegmentV { ident: a@.name, args: want };
    proof {
        assert forall|j: int| 0 <= j < want.len() implies #[trigger] seg@.args[j] == want[j] by {
            assert(seg.args@[j]@ == want[j]);
        }
        assert(seg@.args =~= want);
        assert(seg@ == sv);
    }
    let mut segments: Vec<PathSegment> = Vec::new();
    segments.push(seg);
    proof {
        assert(segments@[0]@ == sv);
        assert(segments_view(segments@)[0] == sv);
        assert(segments_view(segments@) =~= seq![sv]);
    }
    TypeExpr::Path { global: false, segments }
}

} // verus!
