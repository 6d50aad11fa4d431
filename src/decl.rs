//! Declarations: a record or a tagged union whose field types may hold macro
//! invocations, and the passes that find and rewrite them field by field.
use vstd::prelude::*;
use crate::tokens::{TokenTree, TokenV, tokens_view, copy_tokens};
use crate::generics::{GenericParam, ParamV, params_view};
use crate::alias::{AliasItem, AliasV, aliases_view};
use crate::types::{
    MacroCall, MacroV, TypeExpr, TypeV, macros_view, macros_in, add_distinct,
    lemma_add_distinct_concat, collect_macro_types_from_type, rewrite_type, transform_type,
    opt_string_view,
};

verus! {

/// A field: named in a record, positional in a tuple-like body.
#[derive(Debug)]
pub struct Field {
    pub name: Option<String>,
    pub ty: TypeExpr,
}

#[derive(Debug)]
pub enum Fields {
    Named(Vec<Field>),
    Unnamed(Vec<Field>),
    Unit,
}

#[derive(Debug)]
pub struct Variant {
    pub name: String,
    pub fields: Fields,
}

/// A record's fields (a union's too), or the variants of a tagged union.
#[derive(Debug)]
pub enum Body {
    Record(Fields),
    Variants(Vec<Variant>),
}

/// The part of a declaration that the transformation reads or rewrites. The
/// where-clause is carried through untouched.
#[derive(Debug)]
pub struct Declaration {
    pub name: String,
    pub generics: Vec<GenericParam>,
    pub where_clause: Vec<TokenTree>,
    pub body: Body,
}

pub struct FieldV {
    pub name: Option<Seq<char>>,
    pub ty: TypeV,
}

pub enum FieldsV {
    Named(Seq<FieldV>),
    Unnamed(Seq<FieldV>),
    Unit,
}

pub struct VariantV {
    pub name: Seq<char>,
    pub fields: FieldsV,
}

pub enum BodyV {
    Record(FieldsV),
    Variants(Seq<VariantV>),
}

pub struct DeclV {
    pub name: Seq<char>,
    pub generics: Seq<ParamV>,
    pub where_clause: Seq<TokenV>,
    pub body: BodyV,
}

impl View for Field {
    type V = FieldV;

    open spec fn view(&self) -> FieldV {
        FieldV { name: opt_string_view(self.name), ty: self.ty@ }
    }
}

pub open spec fn field_list_view(fs: Seq<Field>) -> Seq<FieldV> {
    fs.map_values(|f: Field| f@)
}

impl View for Fields {
    type V = FieldsV;

    open spec fn view(&self) -> FieldsV {
        match self {
            Fields::Named(fs) => FieldsV::Named(field_list_view(fs@)),
            Fields::Unnamed(fs) => FieldsV::Unnamed(field_list_view(fs@)),
            Fields::Unit => FieldsV::Unit,
        }
    }
}

impl View for Variant {
    type V = VariantV;

    open spec fn view(&self) -> VariantV {
        VariantV { name: self.name@, fields: self.fields@ }
    }
}

pub open spec fn variants_view(vs: Seq<Variant>) -> Seq<VariantV> {
    vs.map_values(|v: Variant| v@)
}

impl View for Body {
    type V = BodyV;

    open spec fn view(&self) -> BodyV {
        match self {
            Body::Record(fs) => BodyV::Record(fs@),
            Body::Variants(vs) => BodyV::Variants(variants_view(vs@)),
        }
    }
}

impl View for Declaration {
    type V = DeclV;

    open spec fn view(&self) -> DeclV {
        DeclV {
            name: self.name@,
            generics: params_view(self.generics@),
            where_clause: tokens_view(self.where_clause@),
            body: self.body@,
        }
    }
}

/// The field types of a field list, in order.
pub open spec fn field_list_macros(fs: Seq<FieldV>) -> Seq<MacroV>
    decreases fs.len(),
{
    if fs.len() == 0 {
        Seq::empty()
    } else {
        field_list_macros(fs.drop_last()) + macros_in(fs.last().ty)
    }
}

pub open spec fn field_seq(f: FieldsV) -> Seq<FieldV> {
    match f {
        FieldsV::Named(fs) => fs,
        FieldsV::Unnamed(fs) => fs,
        FieldsV::Unit => Seq::empty(),
    }
}

pub open spec fn fields_macros(f: FieldsV) -> Seq<MacroV> {
    field_list_macros(field_seq(f))
}

pub open spec fn variants_macros(vs: Seq<VariantV>) -> Seq<MacroV>
    decreases vs.len(),
{
    if vs.len() == 0 {
        Seq::empty()
    } else {
        variants_macros(vs.drop_last()) + fields_macros(vs.last().fields)
    }
}

/// Every macro invocation of every field type of `d`, in declaration order
/// and walking order within each field.
pub open spec fn decl_macros(d: DeclV) -> Seq<MacroV> {
    match d.body {
        BodyV::Record(fs) => fields_macros(fs),
        BodyV::Variants(vs) => variants_macros(vs),
    }
}

/// The structurally distinct macro invocations of `d`, in order of first
/// occurrence.
pub open spec fn distinct_macros(d: DeclV) -> Seq<MacroV> {
    add_distinct(Seq::empty(), decl_macros(d))
}

pub open spec fn rewrite_field(f: FieldV, aliases: Seq<AliasV>) -> FieldV {
    FieldV { name: f.name, ty: rewrite_type(f.ty, aliases) }
}

pub open spec fn rewrite_field_list(fs: Seq<FieldV>, aliases: Seq<AliasV>) -> Seq<FieldV> {
    fs.map_values(|f: FieldV| rewrite_field(f, aliases))
}

pub open spec fn rewrite_fields(f: FieldsV, aliases: Seq<AliasV>) -> FieldsV {
    match f {
        FieldsV::Named(fs) => FieldsV::Named(rewrite_field_list(fs, aliases)),
        FieldsV::Unnamed(fs) => FieldsV::Unnamed(rewrite_field_list(fs, aliases)),
        FieldsV::Unit => FieldsV::Unit,
    }
}

pub open spec fn rewrite_body(b: BodyV, aliases: Seq<AliasV>) -> BodyV {
    match b {
        BodyV::Record(fs) => BodyV::Record(rewrite_fields(fs, aliases)),
        BodyV::Variants(vs) => BodyV::Variants(
            vs.map_values(|v: VariantV| VariantV { name: v.name, fields: rewrite_fields(v.fields, aliases) }),
        ),
    }
}

/// `d` with every field type rewritten; name, parameters and where-clause kept.
pub open spec fn rewrite_decl(d: DeclV, aliases: Seq<AliasV>) -> DeclV {
    DeclV { body: rewrite_body(d.body, aliases), ..d }
}

/// Appends to `found` each macro invocation of the field types that it does
/// not hold yet.
pub fn collect_macro_types_from_fields(fields: &Fields, found: &mut Vec<MacroCall>)
    ensures
        macros_view(final(found)@) == add_distinct(macros_view(old(found)@), fields_macros(fields@)),
{
    let ghost start = macros_view(found@);
    let fs = match fields {
        Fields::Named(fs) => fs,
        Fields::Unnamed(fs) => fs,
        Fields::Unit => {
            return;
        },
    };
    let ghost fv = field_list_view(fs@);
    assert(fv == field_seq(fields@));
    assert(fv.take(0) =~= Seq::<FieldV>::empty());
    let mut i: usize = 0;
    while i < fs.len()
        invariant
            i <= fs.len(),
            fv == field_list_view(fs@),
            macros_view(found@) == add_distinct(start, field_list_macros(fv.take(i as int))),
        decreases fs.len() - i,
    {
        proof {
            let pre = fv.take(i + 1);
            assert(pre.drop_last() =~= fv.take(i as int));
            assert(pre.last() == fs@[i as int]@);
            lemma_add_distinct_concat(
                start,
                field_list_macros(fv.take(i as int)),
                macros_in(fs@[i as int].ty@),
            );
        }
        collect_macro_types_from_type(&fs[i].ty, found);
        i = i + 1;
    }
    assert(fv.take(fs.len() as int) =~= fv);
}

/// The structurally distinct macro invocations of the declaration's field
/// types, in order of first occurrence.
pub fn collect_macro_types(input: &Declaration) -> (r: Vec<MacroCall>)
    ensures
        macros_view(r@) == distinct_macros(input@),
{
    let mut found: Vec<MacroCall> = Vec::new();
    assert(macros_view(found@) =~= Seq::<MacroV>::empty());
    match &input.body {
        Body::Record(fields) => {
            collect_macro_types_from_fields(fields, &mut found);
        },
        Body::Variants(vs) => {
            let ghost vv = variants_view(vs@);
            assert(vv.take(0) =~= Seq::<VariantV>::empty());
            let mut i: usize = 0;
            while i < vs.len()
                invariant
                    i <= vs.len(),
                    vv == variants_view(vs@),
                    macros_view(found@) == add_distinct(
                        Seq::empty(),
                        variants_macros(vv.take(i as int)),
                    ),
                decreases vs.len() - i,
            {
                proof {
                    let pre = vv.take(i + 1);
                    assert(pre.drop_last() =~= vv.take(i as int));
                    assert(pre.last() == vs@[i as int]@);
                    lemma_add_distinct_concat(
                        Seq::empty(),
                        variants_macros(vv.take(i as int)),
                        fields_macros(vs@[i as int].fields@),
                    );
                }
                collect_macro_types_from_fields(&vs[i].fields, &mut found);
                i = i + 1;
            }
            assert(vv.take(vs.len() as int) =~= vv);
        },
    }
    found
}

fn transform_field_list(fs: &Vec<Field>, aliases: &Vec<AliasItem>) -> (r: Vec<Field>)
    ensures
        field_list_view(r@) == rewrite_field_list(field_list_view(fs@), aliases_view(aliases@)),
{
    let ghost av = aliases_view(aliases@);
    let mut r: Vec<Field> = Vec::new();
    let mut i: usize = 0;
    while i < fs.len()
        invariant
            i <= fs.len(),
            av == aliases_view(aliases@),
            r.len() == i,
            forall|j: int| 0 <= j < i ==> #[trigger] r@[j]@ == rewrite_field(fs@[j]@, av),
        decreases fs.len() - i,
    {
        let name = match &fs[i].name {
            Some(n) => Some(n.clone()),
            None => None,
        };
        let ty = transform_type(&fs[i].ty, aliases);
        r.push(Field { name, ty });
        i = i + 1;
    }
    assert(field_list_view(r@) =~= rewrite_field_list(field_list_view(fs@), av));
    r
}

/// The fields with every field type rewritten through `aliases`.
pub fn transform_fields(fields: &Fields, aliases: &Vec<AliasItem>) -> (r: Fields)
    ensures
        r@ == rewrite_fields(fields@, aliases_view(aliases@)),
{
    match fields {
        Fields::Named(fs) => Fields::Named(transform_field_list(fs, aliases)),
        Fields::Unnamed(fs) => Fields::Unnamed(transform_field_list(fs, aliases)),
        Fields::Unit => Fields::Unit,
    }
}

/// A copy of the declaration with every field of every variant rewritten
/// through `aliases`.
pub fn transform_input(input: &Declaration, aliases: &Vec<AliasItem>) -> (r: Declaration)
    ensures
        r@ == rewrite_decl(input@, aliases_view(aliases@)),
{
    let ghost av = aliases_view(aliases@);
    let body = match &input.body {
        Body::Record(fields) => Body::Record(transform_fields(fields, aliases)),
        Body::Variants(vs) => {
            let ghost want = rewrite_body(input@.body, av);
            let mut out: Vec<Variant> = Vec::new();
            let mut i: usize = 0;
            while i < vs.len()
                invariant
                    i <= vs.len(),
                    av == aliases_view(aliases@),
                    out.len() == i,
                    forall|j: int|
                        0 <= j < i ==> #[trigger] out@[j]@ == (VariantV {
                            name: vs@[j]@.name,
                            fields: rewrite_fields(vs@[j]@.fields, av),
                        }),
                decreases vs.len() - i,
            {
                let fields = transform_fields(&vs[i].fields, aliases);
                out.push(Variant { name: vs[i].name.clone(), fields });
                i = i + 1;
            }
            assert(variants_view(out@) =~= want->Variants_0);
            Body::Variants(out)
        },
    };
    let mut generics: Vec<GenericParam> = Vec::new();
    let mut i: usize = 0;
    while i < input.generics.len()
        invariant
            i <= input.generics.len(),
            generics.len() == i,
            forall|j: int| 0 <= j < i ==> #[trigger] generics@[j]@ == input.generics@[j]@,
        decreases input.generics.len() - i,
    {
        generics.push(input.generics[i].duplicate());
        i = i + 1;
    }
    assert(params_view(generics@) =~= params_view(input.generics@));
    Declaration {
        name: input.name.clone(),
        generics,
        where_clause: copy_tokens(&input.where_clause),
        body,
    }
}

} // verus!
