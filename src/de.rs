//! Decode plans: what the emitted `decode` of a struct or of a one-field
//! wrapper is made of.
use vstd::prelude::*;

use crate::generics::{params_wf, rewritten, Generics, ImplWithDeLifetime, Token};

verus! {

/// A field of a struct: named by an identifier, or positional.
#[derive(Clone, Copy, Debug, PartialEq, Eq, Structural)]
pub struct Field {
    pub ident: Option<usize>,
}

/// The body of a type declaration.
pub enum Data {
    Struct(Vec<Field>),
    Enum,
    Union,
}

/// A type declaration as the front-end hands it over.
pub struct DeriveInput {
    pub ident: usize,
    pub generics: Generics,
    pub data: Data,
}

/// How one field is initialised in the emitted decoder: by its identifier
/// or by its position, from the field type's own `decode`.
#[derive(Clone, Copy, Debug, PartialEq, Eq, Structural)]
pub enum FieldInit {
    Named(usize),
    Index(usize),
}

/// Whether the emitted decoder checks a list header and the length it
/// declares, or hands the buffer to its single field as it is.
#[derive(Clone, Copy, Debug, PartialEq, Eq, Structural)]
pub enum Framing {
    List,
    Transparent,
}

/// An emitted `decode` implementation.
pub struct DecodeImpl {
    /// the type's identifier
    pub ident: usize,
    /// the implementation header's parameter list, binding `'de`
    pub impl_generics: Vec<Token>,
    pub framing: Framing,
    /// the field initialisers, in declared order
    pub fields: Vec<FieldInit>,
}

pub open spec fn field_init(index: int, field: Field) -> FieldInit {
    match field.ident {
        Some(id) => FieldInit::Named(id),
        None => FieldInit::Index(index as usize),
    }
}

/// The initialisers of `fields`, in declared order.
pub open spec fn field_inits(fields: Seq<Field>) -> Seq<FieldInit> {
    Seq::new(fields.len(), |i: int| field_init(i, fields[i]))
}

pub open spec fn input_wf(ast: DeriveInput) -> bool {
    params_wf(ast.generics.params@)
}

/// The initialiser of the field at `index`.
pub fn decodable_field(index: usize, field: &Field) -> (r: FieldInit)
    ensures
        r == field_init(index as int, *field),
{
    match field.ident {
        Some(id) => FieldInit::Named(id),
        None => FieldInit::Index(index),
    }
}

fn impl_generics_of(generics: &Generics) -> (r: Vec<Token>)
    requires
        params_wf(generics.params@),
    ensures
        r@ == rewritten(generics.params@),
{
    let mut tokens: Vec<Token> = Vec::new();
    ImplWithDeLifetime(generics).to_tokens(&mut tokens);
    assert(tokens@ =~= rewritten(generics.params@));
    tokens
}

/// A struct declaration.
pub open spec fn is_struct(ast: DeriveInput) -> bool {
    ast.data is Struct
}

/// A struct declaration with exactly one field.
pub open spec fn is_wrapper(ast: DeriveInput) -> bool {
    ast.data matches Data::Struct(fields) && fields@.len() == 1
}

/// The fields of a struct declaration.
pub open spec fn struct_fields(ast: DeriveInput) -> Seq<Field> {
    ast.data->Struct_0@
}

/// The decoder of a struct: it reads a list header, decodes every field in
/// declared order and checks that they used up the declared payload.
pub fn impl_decodable(ast: &DeriveInput) -> (r: DecodeImpl)
    requires
        input_wf(*ast),
        is_struct(*ast),
    ensures
        r.ident == ast.ident,
        r.impl_generics@ == rewritten(ast.generics.params@),
        r.framing == Framing::List,
        r.fields@ == field_inits(struct_fields(*ast)),
{
    let fields = match &ast.data {
        Data::Struct(fields) => fields,
        _ => unreached(),
    };
    let mut stmts: Vec<FieldInit> = Vec::new();
    let mut i: usize = 0;
    while i < fields.len()
        invariant
            i <= fields@.len(),
            stmts@ == field_inits(fields@.take(i as int)),
        decreases fields@.len() - i,
    {
        let init = decodable_field(i, &fields[i]);
        stmts.push(init);
        i += 1;
        assert(stmts@ =~= field_inits(fields@.take(i as int)));
    }
    assert(fields@.take(i as int) =~= fields@);
    let impl_generics = impl_generics_of(&ast.generics);
    DecodeImpl { ident: ast.ident, impl_generics, framing: Framing::List, fields: stmts }
}

/// The decoder of a one-field wrapper: it decodes its field from the same
/// buffer, with no header of its own.
pub fn impl_decodable_wrapper(ast: &DeriveInput) -> (r: DecodeImpl)
    requires
        input_wf(*ast),
        is_wrapper(*ast),
    ensures
        r.ident == ast.ident,
        r.impl_generics@ == rewritten(ast.generics.params@),
        r.framing == Framing::Transparent,
        r.fields@ == field_inits(struct_fields(*ast)),
        r.fields@.len() == 1,
{
    let fields = match &ast.data {
        Data::Struct(fields) => fields,
        _ => unreached(),
    };
    let init = decodable_field(0, &fields[0]);
    let mut stmts: Vec<FieldInit> = Vec::new();
    stmts.push(init);
    assert(stmts@ =~= field_inits(fields@));
    let impl_generics = impl_generics_of(&ast.generics);
    DecodeImpl { ident: ast.ident, impl_generics, framing: Framing::Transparent, fields: stmts }
}

} // verus!
