use fastrlp_derive::de::{
    decodable_field, impl_decodable, impl_decodable_wrapper, Data, DeriveInput, Field, FieldInit,
    Framing,
};
use fastrlp_derive::generics::{GenericParam, Generics, ParamEntry, Token};

fn input(data: Data) -> DeriveInput {
    DeriveInput { ident: 50, generics: Generics { params: vec![] }, data }
}

fn named(id: usize) -> Field {
    Field { ident: Some(id) }
}

#[test]
fn named_field_initialiser() {
    assert_eq!(decodable_field(3, &named(7)), FieldInit::Named(7));
}

#[test]
fn positional_field_initialiser() {
    assert_eq!(decodable_field(3, &Field { ident: None }), FieldInit::Index(3));
}

#[test]
fn struct_plan_keeps_declared_order() {
    let d = impl_decodable(&input(Data::Struct(vec![named(1), named(2)])));
    assert_eq!(d.ident, 50);
    assert_eq!(d.framing, Framing::List);
    assert_eq!(d.fields, vec![FieldInit::Named(1), FieldInit::Named(2)]);
    assert_eq!(
        d.impl_generics,
        vec![Token::Open, Token::DeLifetime, Token::Comma, Token::Close]
    );
}

#[test]
fn swapped_fields_give_a_different_plan() {
    let a = impl_decodable(&input(Data::Struct(vec![named(1), named(2)])));
    let b = impl_decodable(&input(Data::Struct(vec![named(2), named(1)])));
    assert_ne!(a.fields, b.fields);
}

#[test]
fn tuple_struct_plan_uses_positions() {
    let d = impl_decodable(&input(Data::Struct(vec![
        Field { ident: None },
        Field { ident: None },
    ])));
    assert_eq!(d.fields, vec![FieldInit::Index(0), FieldInit::Index(1)]);
}

#[test]
fn zero_field_struct_plan() {
    let d = impl_decodable(&input(Data::Struct(vec![])));
    assert!(d.fields.is_empty());
    assert_eq!(d.framing, Framing::List);
}

#[test]
fn struct_plan_rewrites_generics() {
    let ast = DeriveInput {
        ident: 50,
        generics: Generics {
            params: vec![ParamEntry {
                param: GenericParam::Type { attrs: vec![], ident: 4, bounds: vec![], default: Some(5) },
                comma: false,
            }],
        },
        data: Data::Struct(vec![named(1)]),
    };
    let d = impl_decodable(&ast);
    assert_eq!(
        d.impl_generics,
        vec![Token::Open, Token::DeLifetime, Token::Comma, Token::Ident(4), Token::Close]
    );
}

#[test]
fn wrapper_plan_is_transparent() {
    let d = impl_decodable_wrapper(&input(Data::Struct(vec![Field { ident: None }])));
    assert_eq!(d.framing, Framing::Transparent);
    assert_eq!(d.fields, vec![FieldInit::Index(0)]);
}

#[test]
fn wrapper_plan_keeps_a_named_field() {
    let d = impl_decodable_wrapper(&input(Data::Struct(vec![named(9)])));
    assert_eq!(d.framing, Framing::Transparent);
    assert_eq!(d.fields, vec![FieldInit::Named(9)]);
}
