//! The whole transformation: one hidden alias per distinct macro invocation,
//! the derive list, and the rewritten declaration.
use vstd::prelude::*;
use rand::Rng;
use crate::tokens::{TokenTree, tokens_view};
use crate::generics::{
    alias_params, get_used_generic_params, create_filtered_generics, strip_param_defaults,
};
use crate::types::{MacroV, macros_view};
use crate::alias::{AliasItem, AliasV, aliases_view};
use crate::decl::{Declaration, DeclV, distinct_macros, rewrite_decl, collect_macro_types, transform_input};
use crate::trait_list::{strings_view, derive_list, parse_derive_traits, chars_of, string_from_chars};

verus! {

/// The prefix reserved for generated alias names.
pub const ALIAS_PREFIX: &'static str = "__TypeMacroAlias";

/// The number of random characters after the prefix.
pub const ALIAS_SUFFIX_LEN: usize = 12;

/// What the transformation emits, in output order: the aliases, the derive
/// attribute (omitted when `derives` is empty), the rewritten declaration.
#[derive(Debug)]
pub struct Expansion {
    pub aliases: Vec<AliasItem>,
    pub derives: Vec<String>,
    pub decl: Declaration,
}

pub struct ExpansionV {
    pub aliases: Seq<AliasV>,
    pub derives: Seq<Seq<char>>,
    pub decl: DeclV,
}

impl View for Expansion {
    type V = ExpansionV;

    open spec fn view(&self) -> ExpansionV {
        ExpansionV {
            aliases: aliases_view(self.aliases@),
            derives: strings_view(self.derives@),
            decl: self.decl@,
        }
    }
}

/// The alias named `name` for invocation `m` of declaration `d`.
pub open spec fn alias_for(d: DeclV, m: MacroV, name: Seq<char>) -> AliasV {
    AliasV { name, params: alias_params(m.tokens, d.generics), target: m }
}

/// One alias per distinct invocation of `d`, in order of first occurrence,
/// the i-th named `names[i]`.
pub open spec fn planned_aliases(d: DeclV, names: Seq<Seq<char>>) -> Seq<AliasV> {
    let keys = distinct_macros(d);
    Seq::new(keys.len(), |i: int| alias_for(d, keys[i], names[i]))
}

/// The expansion of `d` with trait list `derives`, taking alias names from
/// `names` in order.
pub open spec fn expand(d: DeclV, derives: Seq<Seq<char>>, names: Seq<Seq<char>>) -> ExpansionV {
    let aliases = planned_aliases(d, names);
    ExpansionV { aliases, derives, decl: rewrite_decl(d, aliases) }
}

pub open spec fn alias_names(aliases: Seq<AliasV>) -> Seq<Seq<char>> {
    aliases.map_values(|a: AliasV| a.name)
}

pub open spec fn is_ascii_alphanumeric(c: char) -> bool {
    ||| 'a' <= c <= 'z'
    ||| 'A' <= c <= 'Z'
    ||| '0' <= c <= '9'
}

/// The reserved prefix followed by the random alphanumeric suffix.
pub open spec fn is_generated_name(s: Seq<char>) -> bool {
    let p = ALIAS_PREFIX@.len() as int;
    &&& s.len() == p + ALIAS_SUFFIX_LEN
    &&& s.take(p) == ALIAS_PREFIX@
    &&& forall|i: int| p <= i < s.len() ==> is_ascii_alphanumeric(#[trigger] s[i])
}

/// Relies on rand's `Alphanumeric` distribution sampled through `thread_rng`:
/// every sample is an ASCII letter or digit; `take(len)` yields `len` of them.
#[verifier::external_body]
fn random_alphanumeric(len: usize) -> (r: Vec<char>)
    ensures
        r@.len() == len,
        forall|i: int| 0 <= i < len ==> is_ascii_alphanumeric(#[trigger] r@[i]),
{
    rand::thread_rng().sample_iter(&rand::distributions::Alphanumeric).take(len).map(char::from).collect()
}

/// The alias name made of the reserved prefix followed by `suffix`.
pub fn alias_name_from_suffix(suffix: &Vec<char>) -> (r: String)
    ensures
        r@ == ALIAS_PREFIX@ + suffix@,
{
    let mut cs = chars_of(ALIAS_PREFIX);
    let ghost prefix = cs@;
    let mut i: usize = 0;
    while i < suffix.len()
        invariant
            i <= suffix.len(),
            prefix == ALIAS_PREFIX@,
            cs@ == prefix + suffix@.take(i as int),
        decreases suffix.len() - i,
    {
        assert(suffix@.take(i + 1) =~= suffix@.take(i as int).push(suffix@[i as int]));
        cs.push(suffix[i]);
        i = i + 1;
    }
    assert(suffix@.take(suffix.len() as int) =~= suffix@);
    string_from_chars(&cs)
}

/// A fresh alias name: the reserved prefix and a random alphanumeric suffix.
/// Two names collide only if their random suffixes do.
pub fn generate_random_type_name() -> (r: String)
    ensures
        is_generated_name(r@),
{
    let suffix = random_alphanumeric(ALIAS_SUFFIX_LEN);
    let r = alias_name_from_suffix(&suffix);
    proof {
        let p = ALIAS_PREFIX@.len() as int;
        assert(r@.take(p) =~= ALIAS_PREFIX@);
        assert forall|k: int| p <= k < r@.len() implies is_ascii_alphanumeric(#[trigger] r@[k]) by {
            assert(r@[k] == suffix@[k - p]);
        }
    }
    r
}

/// The expansion of `input`, naming the i-th distinct macro invocation
/// `names[i]`: aliases with their minimized parameter lists, the trait list
/// as given, and the declaration with every invocation replaced.
pub fn impl_type_macro_derive_tricks(
    derive_traits: &Vec<String>,
    input: &Declaration,
    names: &Vec<String>,
) -> (r: Expansion)
    requires
        names.len() >= distinct_macros(input@).len(),
    ensures
        r@ == expand(input@, strings_view(derive_traits@), strings_view(names@)),
{
    let macro_types = collect_macro_types(input);
    let ghost keys = distinct_macros(input@);
    let ghost planned = planned_aliases(input@, strings_view(names@));
    assert(macros_view(macro_types@).len() == macro_types.len());
    let mut aliases: Vec<AliasItem> = Vec::new();
    let mut i: usize = 0;
    while i < macro_types.len()
        invariant
            i <= macro_types.len(),
            macros_view(macro_types@) == keys,
            keys == distinct_macros(input@),
            planned == planned_aliases(input@, strings_view(names@)),
            names.len() >= keys.len(),
            aliases.len() == i,
            forall|j: int| 0 <= j < i ==> #[trigger] aliases@[j]@ == planned[j],
        decreases macro_types.len() - i,
    {
        let used = get_used_generic_params(&macro_types[i], &input.generics);
        let params = strip_param_defaults(&create_filtered_generics(&used));
        let alias = AliasItem {
            name: names[i].clone(),
            params,
            target: macro_types[i].duplicate(),
        };
        assert(macro_types@[i as int]@ == keys[i as int]);
        assert(alias@.params =~= planned[i as int].params);
        aliases.push(alias);
        i = i + 1;
    }
    assert(aliases_view(aliases@) =~= planned);
    let decl = transform_input(input, &aliases);
    let mut derives: Vec<String> = Vec::new();
    let mut k: usize = 0;
    while k < derive_traits.len()
        invariant
            k <= derive_traits.len(),
            derives.len() == k,
            forall|j: int| 0 <= j < k ==> #[trigger] derives@[j]@ == derive_traits@[j]@,
        decreases derive_traits.len() - k,
    {
        derives.push(derive_traits[k].clone());
        k = k + 1;
    }
    assert(strings_view(derives@) =~= strings_view(derive_traits@));
    Expansion { aliases, derives, decl }
}

/// The attribute's work: reads the trait list from `args`, draws one fresh
/// name per distinct macro invocation of `input`, and expands.
pub fn macro_derive(args: &Vec<TokenTree>, input: &Declaration) -> (r: Expansion)
    ensures
        r@.aliases.len() == distinct_macros(input@).len(),
        r@ == expand(input@, derive_list(tokens_view(args@)), alias_names(r@.aliases)),
        forall|i: int| 0 <= i < r@.aliases.len() ==> is_generated_name(#[trigger] r@.aliases[i].name),
{
    let derive_traits = parse_derive_traits(args);
    let count = collect_macro_types(input).len();
    let mut names: Vec<String> = Vec::new();
    let mut i: usize = 0;
    while i < count
        invariant
            i <= count,
            names.len() == i,
            forall|j: int| 0 <= j < i ==> is_generated_name(#[trigger] names@[j]@),
        decreases count - i,
    {
        names.push(generate_random_type_name());
        i = i + 1;
    }
    let r = impl_type_macro_derive_tricks(&derive_traits, input, &names);
    assert(alias_names(r@.aliases) =~= strings_view(names@));
    r
}

} // verus!
