//! Generic parameters of a declaration, and the lexical analysis that decides
//! which of them a macro invocation's arguments mention.
use vstd::prelude::*;
use crate::tokens::{TokenTree, TokenV, tokens_view, lemma_tokens_view, copy_tokens};
use crate::types::MacroCall;

verus! {

/// A generic parameter of a declaration, with the tokens of its outer
/// attributes. A lifetime's name is held without its leading `'`.
#[derive(Debug)]
pub enum GenericParam {
    Type {
        attrs: Vec<TokenTree>,
        name: String,
        bounds: Vec<TokenTree>,
        default: Option<Vec<TokenTree>>,
    },
    Lifetime { attrs: Vec<TokenTree>, name: String, bounds: Vec<TokenTree> },
    Const {
        attrs: Vec<TokenTree>,
        name: String,
        ty: Vec<TokenTree>,
        default: Option<Vec<TokenTree>>,
    },
}

pub enum ParamV {
    Type {
        attrs: Seq<TokenV>,
        name: Seq<char>,
        bounds: Seq<TokenV>,
        default: Option<Seq<TokenV>>,
    },
    Lifetime { attrs: Seq<TokenV>, name: Seq<char>, bounds: Seq<TokenV> },
    Const { attrs: Seq<TokenV>, name: Seq<char>, ty: Seq<TokenV>, default: Option<Seq<TokenV>> },
}

pub open spec fn opt_tokens_view(o: Option<Vec<TokenTree>>) -> Option<Seq<TokenV>> {
    match o {
        Some(ts) => Some(tokens_view(ts@)),
        None => None,
    }
}

impl View for GenericParam {
    type V = ParamV;

    open spec fn view(&self) -> ParamV {
        match self {
            GenericParam::Type { attrs, name, bounds, default } => ParamV::Type {
                attrs: tokens_view(attrs@),
                name: name@,
                bounds: tokens_view(bounds@),
                default: opt_tokens_view(*default),
            },
            GenericParam::Lifetime { attrs, name, bounds } => ParamV::Lifetime {
                attrs: tokens_view(attrs@),
                name: name@,
                bounds: tokens_view(bounds@),
            },
            GenericParam::Const { attrs, name, ty, default } => ParamV::Const {
                attrs: tokens_view(attrs@),
                name: name@,
                ty: tokens_view(ty@),
                default: opt_tokens_view(*default),
            },
        }
    }
}

pub open spec fn params_view(ps: Seq<GenericParam>) -> Seq<ParamV> {
    ps.map_values(|p: GenericParam| p@)
}

pub open spec fn param_name(p: ParamV) -> Seq<char> {
    match p {
        ParamV::Type { name, .. } => name,
        ParamV::Lifetime { name, .. } => name,
        ParamV::Const { name, .. } => name,
    }
}

/// Some identifier token equal to `name` occurs in `ts`, at any depth of
/// grouping.
pub open spec fn ident_used(ts: Seq<TokenV>, name: Seq<char>) -> bool
    decreases ts,
{
    if ts.len() == 0 {
        false
    } else {
        ident_used(ts.drop_last(), name) || match ts.last() {
            TokenV::Ident(s) => s == name,
            TokenV::Group(_, inner) => ident_used(inner, name),
            _ => false,
        }
    }
}

pub open spec fn is_quote(t: TokenV) -> bool {
    match t {
        TokenV::Punct(c, _) => c == '\'',
        _ => false,
    }
}

/// Some `'` punctuation token is immediately followed, within its group, by
/// the identifier `name`, at any depth of grouping.
pub open spec fn lifetime_used(ts: Seq<TokenV>, name: Seq<char>) -> bool
    decreases ts,
{
    if ts.len() == 0 {
        false
    } else {
        lifetime_used(ts.drop_last(), name) || match ts.last() {
            TokenV::Ident(s) => s == name && ts.len() >= 2 && is_quote(ts[ts.len() - 2]),
            TokenV::Group(_, inner) => lifetime_used(inner, name),
            _ => false,
        }
    }
}

/// A mention found in a prefix of a token stream is a mention in the stream.
pub proof fn lemma_used_in_prefix(ts: Seq<TokenV>, k: int, name: Seq<char>)
    requires
        0 <= k <= ts.len(),
    ensures
        ident_used(ts.take(k), name) ==> ident_used(ts, name),
        lifetime_used(ts.take(k), name) ==> lifetime_used(ts, name),
    decreases ts.len() - k,
{
    if k < ts.len() {
        let next = ts.take(k + 1);
        assert(next.drop_last() =~= ts.take(k));
        lemma_used_in_prefix(ts, k + 1, name);
    } else {
        assert(ts.take(k) =~= ts);
    }
}

/// The token stream `ts` mentions the parameter `p`: a lifetime by `'name`,
/// a type or const parameter by its identifier. Literals never match.
pub open spec fn param_used(ts: Seq<TokenV>, p: ParamV) -> bool {
    match p {
        ParamV::Lifetime { name, .. } => lifetime_used(ts, name),
        _ => ident_used(ts, param_name(p)),
    }
}

/// The parameters of `params` that `ts` mentions, in declaration order.
pub open spec fn used_params(ts: Seq<TokenV>, params: Seq<ParamV>) -> Seq<ParamV> {
    params.filter(|p: ParamV| param_used(ts, p))
}

/// A parameter as an alias may declare it: without a default value.
pub open spec fn strip_default(p: ParamV) -> ParamV {
    match p {
        ParamV::Type { attrs, name, bounds, .. } => ParamV::Type {
            attrs,
            name,
            bounds,
            default: None,
        },
        ParamV::Lifetime { attrs, name, bounds } => ParamV::Lifetime { attrs, name, bounds },
        ParamV::Const { attrs, name, ty, .. } => ParamV::Const { attrs, name, ty, default: None },
    }
}

/// The parameter list of the alias for an invocation with arguments `ts`.
pub open spec fn alias_params(ts: Seq<TokenV>, params: Seq<ParamV>) -> Seq<ParamV> {
    used_params(ts, params).map_values(|p: ParamV| strip_default(p))
}

fn copy_opt_tokens(o: &Option<Vec<TokenTree>>) -> (r: Option<Vec<TokenTree>>)
    ensures
        opt_tokens_view(r) == opt_tokens_view(*o),
{
    match o {
        Some(ts) => Some(copy_tokens(ts)),
        None => None,
    }
}

impl GenericParam {
    /// A structurally equal copy.
    pub fn duplicate(&self) -> (r: GenericParam)
        ensures
            r@ == self@,
    {
        match self {
            GenericParam::Type { attrs, name, bounds, default } => GenericParam::Type {
                attrs: copy_tokens(attrs),
                name: name.clone(),
                bounds: copy_tokens(bounds),
                default: copy_opt_tokens(default),
            },
            GenericParam::Lifetime { attrs, name, bounds } => GenericParam::Lifetime {
                attrs: copy_tokens(attrs),
                name: name.clone(),
                bounds: copy_tokens(bounds),
            },
            GenericParam::Const { attrs, name, ty, default } => GenericParam::Const {
                attrs: copy_tokens(attrs),
                name: name.clone(),
                ty: copy_tokens(ty),
                default: copy_opt_tokens(default),
            },
        }
    }

    /// The same parameter without its default value.
    pub fn without_default(&self) -> (r: GenericParam)
        ensures
            r@ == strip_default(self@),
    {
        match self {
            GenericParam::Type { attrs, name, bounds, .. } => GenericParam::Type {
                attrs: copy_tokens(attrs),
                name: name.clone(),
                bounds: copy_tokens(bounds),
                default: None,
            },
            GenericParam::Lifetime { attrs, name, bounds } => GenericParam::Lifetime {
                attrs: copy_tokens(attrs),
                name: name.clone(),
                bounds: copy_tokens(bounds),
            },
            GenericParam::Const { attrs, name, ty, .. } => GenericParam::Const {
                attrs: copy_tokens(attrs),
                name: name.clone(),
                ty: copy_tokens(ty),
                default: None,
            },
        }
    }

    pub fn name(&self) -> (r: &String)
        ensures
            r@ == param_name(self@),
    {
        match self {
            GenericParam::Type { name, .. } => name,
            GenericParam::Lifetime { name, .. } => name,
            GenericParam::Const { name, .. } => name,
        }
    }

    pub fn is_lifetime(&self) -> (r: bool)
        ensures
            r == (self@ is Lifetime),
    {
        match self {
            GenericParam::Lifetime { .. } => true,
            _ => false,
        }
    }
}

/// Decides whether `tokens` mention `param`, searching every nested group.
pub fn is_generic_param_used_in_token_stream(tokens: &Vec<TokenTree>, param: &GenericParam) -> (r:
    bool)
    ensures
        r == param_used(tokens_view(tokens@), param@),
    decreases tokens,
{
    let lifetime = param.is_lifetime();
    let name = param.name();
    let ghost tv = tokens_view(tokens@);
    let ghost n = param_name(param@);
    proof {
        lemma_tokens_view(tokens@);
    }
    let mut i: usize = 0;
    while i < tokens.len()
        invariant
            i <= tokens.len(),
            tv == tokens_view(tokens@),
            tv.len() == tokens.len(),
            forall|j: int| 0 <= j < tokens.len() ==> #[trigger] tv[j] == tokens@[j]@,
            n == name@,
            n == param_name(param@),
            lifetime == (param@ is Lifetime),
            !lifetime ==> !ident_used(tv.take(i as int), n),
            lifetime ==> !lifetime_used(tv.take(i as int), n),
        decreases tokens.len() - i,
    {
        let ghost pre = tv.take(i + 1);
        proof {
            lemma_used_in_prefix(tv, i + 1, n);
            assert(pre.drop_last() =~= tv.take(i as int));
            assert(pre.last() == tv[i as int]);
            if i > 0 {
                assert(pre[i - 1] == tv[i - 1]);
            }
        }
        match &tokens[i] {
            TokenTree::Ident(s) => {
                if s.eq(name) {
                    if !lifetime {
                        return true;
                    }
                    if i > 0 {
                        if let TokenTree::Punct(c, _) = &tokens[i - 1] {
                            if *c == '\'' {
                                return true;
                            }
                        }
                    }
                }
            },
            TokenTree::Group(_, inner) => {
                if is_generic_param_used_in_token_stream(inner, param) {
                    return true;
                }
            },
            _ => {},
        }
        i = i + 1;
    }
    assert(tv.take(tokens.len() as int) =~= tv);
    false
}

/// The declaration's parameters that the invocation's arguments mention, in
/// declaration order.
pub fn get_used_generic_params(macro_type: &MacroCall, generics: &Vec<GenericParam>) -> (r: Vec<
    GenericParam,
>)
    ensures
        params_view(r@) == used_params(macro_type@.tokens, params_view(generics@)),
{
    let ghost ts = macro_type@.tokens;
    let ghost pv = params_view(generics@);
    let mut r: Vec<GenericParam> = Vec::new();
    let mut i: usize = 0;
    assert(pv.take(0) =~= Seq::<ParamV>::empty());
    proof {
        reveal(Seq::filter);
    }
    while i < generics.len()
        invariant
            i <= generics.len(),
            ts == macro_type@.tokens,
            pv == params_view(generics@),
            params_view(r@) == used_params(ts, pv.take(i as int)),
        decreases generics.len() - i,
    {
        proof {
            reveal(Seq::filter);
            assert(pv.take(i + 1).drop_last() =~= pv.take(i as int));
            assert(pv.take(i + 1).last() == generics@[i as int]@);
        }
        if is_generic_param_used_in_token_stream(&macro_type.tokens, &generics[i]) {
            let p = generics[i].duplicate();
            let ghost before = r@;
            r.push(p);
            assert(params_view(r@) =~= params_view(before).push(p@));
        }
        i = i + 1;
    }
    assert(pv.take(generics.len() as int) =~= pv);
    r
}

/// A generic parameter list made of the parameters `used`, as they are, in
/// their order.
pub fn create_filtered_generics(used: &Vec<GenericParam>) -> (r: Vec<GenericParam>)
    ensures
        params_view(r@) == params_view(used@),
{
    let mut r: Vec<GenericParam> = Vec::new();
    let mut i: usize = 0;
    while i < used.len()
        invariant
            i <= used.len(),
            r.len() == i,
            forall|j: int| 0 <= j < i ==> #[trigger] r@[j]@ == used@[j]@,
        decreases used.len() - i,
    {
        r.push(used[i].duplicate());
        i = i + 1;
    }
    assert(params_view(r@) =~= params_view(used@));
    r
}

/// The parameter list an alias declares for `params`: the same parameters,
/// without default values, which belong to the use site.
pub fn strip_param_defaults(params: &Vec<GenericParam>) -> (r: Vec<GenericParam>)
    ensures
        params_view(r@) == params_view(params@).map_values(|p: ParamV| strip_default(p)),
{
    let mut r: Vec<GenericParam> = Vec::new();
    let mut i: usize = 0;
    while i < params.len()
        invariant
            i <= params.len(),
            r.len() == i,
            forall|j: int| 0 <= j < i ==> #[trigger] r@[j]@ == strip_default(params@[j]@),
        decreases params.len() - i,
    {
        r.push(params[i].without_default());
        i = i + 1;
    }
    assert(params_view(r@) =~= params_view(params@).map_values(|p: ParamV| strip_default(p)));
    r
}

} // verus!
