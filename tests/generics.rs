use fastrlp_derive::generics::{
    Attribute, GenericParam, Generics, ImplWithDeLifetime, ParamEntry, Token,
};

fn lifetime(text: usize, comma: bool) -> ParamEntry {
    ParamEntry { param: GenericParam::Lifetime { text }, comma }
}

fn ty(ident: usize, bounds: Vec<usize>, default: Option<usize>, comma: bool) -> ParamEntry {
    ParamEntry { param: GenericParam::Type { attrs: vec![], ident, bounds, default }, comma }
}

fn rewrite(params: Vec<ParamEntry>) -> Vec<Token> {
    let g = Generics { params };
    let mut tokens = Vec::new();
    ImplWithDeLifetime(&g).to_tokens(&mut tokens);
    tokens
}

#[test]
fn empty_list_gets_only_de() {
    assert_eq!(rewrite(vec![]), vec![Token::Open, Token::DeLifetime, Token::Comma, Token::Close]);
}

#[test]
fn one_lifetime_only() {
    assert_eq!(
        rewrite(vec![lifetime(1, false)]),
        vec![Token::Open, Token::DeLifetime, Token::Comma, Token::Lifetime(1), Token::Close]
    );
}

#[test]
fn one_lifetime_with_trailing_comma() {
    assert_eq!(
        rewrite(vec![lifetime(1, true)]),
        vec![
            Token::Open,
            Token::DeLifetime,
            Token::Comma,
            Token::Lifetime(1),
            Token::Comma,
            Token::Close
        ]
    );
}

#[test]
fn one_type_only() {
    assert_eq!(
        rewrite(vec![ty(1, vec![], None, false)]),
        vec![Token::Open, Token::DeLifetime, Token::Comma, Token::Ident(1), Token::Close]
    );
}

#[test]
fn one_type_with_trailing_comma() {
    assert_eq!(
        rewrite(vec![ty(1, vec![], None, true)]),
        vec![
            Token::Open,
            Token::DeLifetime,
            Token::Comma,
            Token::Ident(1),
            Token::Comma,
            Token::Close
        ]
    );
}

#[test]
fn lifetime_after_type_moves_forward_and_default_is_dropped() {
    // <T: A + B = D, 'a>
    let out = rewrite(vec![ty(1, vec![2, 3], Some(4), true), lifetime(5, false)]);
    assert_eq!(
        out,
        vec![
            Token::Open,
            Token::DeLifetime,
            Token::Comma,
            Token::Lifetime(5),
            Token::Comma,
            Token::Ident(1),
            Token::Colon,
            Token::Bound(2),
            Token::Plus,
            Token::Bound(3),
            Token::Comma,
            Token::Close
        ]
    );
    assert!(!out.contains(&Token::Ty(4)));
}

#[test]
fn const_param_keeps_outer_attributes_only() {
    // <#[x] #![y] const N: usize = 10, 'a,>
    let c = ParamEntry {
        param: GenericParam::Const {
            attrs: vec![Attribute { outer: true, text: 6 }, Attribute { outer: false, text: 7 }],
            ident: 8,
            ty: 9,
            default: Some(10),
        },
        comma: true,
    };
    assert_eq!(
        rewrite(vec![c, lifetime(5, true)]),
        vec![
            Token::Open,
            Token::DeLifetime,
            Token::Comma,
            Token::Lifetime(5),
            Token::Comma,
            Token::Attr(6),
            Token::ConstKw,
            Token::Ident(8),
            Token::Colon,
            Token::Ty(9),
            Token::Comma,
            Token::Close
        ]
    );
}

#[test]
fn mixed_lifetimes_and_types_are_grouped() {
    // <'a, T, 'b, U>
    let out = rewrite(vec![
        lifetime(1, true),
        ty(2, vec![], None, true),
        lifetime(3, true),
        ty(4, vec![], None, false),
    ]);
    assert_eq!(
        out,
        vec![
            Token::Open,
            Token::DeLifetime,
            Token::Comma,
            Token::Lifetime(1),
            Token::Comma,
            Token::Lifetime(3),
            Token::Comma,
            Token::Ident(2),
            Token::Comma,
            Token::Ident(4),
            Token::Close
        ]
    );
}

#[test]
fn two_types_then_last_lifetime_without_comma() {
    // <T, U, 'a>
    let out = rewrite(vec![ty(1, vec![], None, true), ty(2, vec![7], None, true), lifetime(3, false)]);
    assert_eq!(
        out,
        vec![
            Token::Open,
            Token::DeLifetime,
            Token::Comma,
            Token::Lifetime(3),
            Token::Comma,
            Token::Ident(1),
            Token::Comma,
            Token::Ident(2),
            Token::Colon,
            Token::Bound(7),
            Token::Comma,
            Token::Close
        ]
    );
    let lifetimes = out
        .iter()
        .filter(|t| matches!(t, Token::DeLifetime | Token::Lifetime(_)))
        .count();
    assert_eq!(lifetimes, 2);
}

#[test]
fn output_appends_to_existing_tokens() {
    let g = Generics { params: vec![ty(1, vec![], None, false)] };
    let mut tokens = vec![Token::Ident(99)];
    ImplWithDeLifetime(&g).to_tokens(&mut tokens);
    assert_eq!(tokens[0], Token::Ident(99));
    assert_eq!(tokens.len(), 6);
}
