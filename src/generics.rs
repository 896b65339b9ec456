//! Rewriting of a generic parameter list into the parameter list of an
//! implementation header that additionally binds the borrow-scope lifetime
//! `'de`.
//!
//! Source text that the rewriter only threads through (an identifier, an
//! attribute, a bound, a type, a whole lifetime parameter) is referred to by a
//! piece number chosen by the caller; the rewriter never looks inside it.
use vstd::prelude::*;

verus! {

/// One token of an emitted generic parameter list.
#[derive(Clone, Copy, Debug, PartialEq, Eq, Structural)]
pub enum Token {
    /// `<`
    Open,
    /// `>`
    Close,
    /// `,`
    Comma,
    /// `:`
    Colon,
    /// `+`
    Plus,
    /// the keyword `const`
    ConstKw,
    /// the fresh borrow-scope lifetime parameter `'de`
    DeLifetime,
    /// a lifetime parameter of the source list, as written there
    Lifetime(usize),
    /// an outer attribute
    Attr(usize),
    /// an identifier
    Ident(usize),
    /// one trait bound
    Bound(usize),
    /// a type
    Ty(usize),
}

/// An attribute on a type or const parameter.
#[derive(Clone, Copy, Debug, PartialEq, Eq, Structural)]
pub struct Attribute {
    /// `#[..]` rather than `#![..]`
    pub outer: bool,
    pub text: usize,
}

/// One parameter of a generic parameter list.
pub enum GenericParam {
    /// A lifetime parameter; `text` stands for all of it (attributes and bounds).
    Lifetime { text: usize },
    Type { attrs: Vec<Attribute>, ident: usize, bounds: Vec<usize>, default: Option<usize> },
    Const { attrs: Vec<Attribute>, ident: usize, ty: usize, default: Option<usize> },
}

/// A parameter together with whether a `,` follows it in the source.
pub struct ParamEntry {
    pub param: GenericParam,
    pub comma: bool,
}

/// A generic parameter list as declared on a type.
pub struct Generics {
    pub params: Vec<ParamEntry>,
}

/// A parameter list is well formed when every parameter but the last is
/// followed by a separator.
pub open spec fn params_wf(ps: Seq<ParamEntry>) -> bool {
    forall|i: int| 0 <= i < ps.len() - 1 ==> #[trigger] ps[i].comma
}

pub open spec fn is_lifetime(e: ParamEntry) -> bool {
    e.param is Lifetime
}

/// The lifetime parameters of `ps`, in source order.
pub open spec fn lifetimes(ps: Seq<ParamEntry>) -> Seq<ParamEntry>
    decreases ps.len(),
{
    if ps.len() == 0 {
        seq![]
    } else if is_lifetime(ps.last()) {
        lifetimes(ps.drop_last()).push(ps.last())
    } else {
        lifetimes(ps.drop_last())
    }
}

/// The type and const parameters of `ps`, in source order.
pub open spec fn others(ps: Seq<ParamEntry>) -> Seq<ParamEntry>
    decreases ps.len(),
{
    if ps.len() == 0 {
        seq![]
    } else if is_lifetime(ps.last()) {
        others(ps.drop_last())
    } else {
        others(ps.drop_last()).push(ps.last())
    }
}

/// The outer attributes of `attrs`, in order.
pub open spec fn outer_attr_tokens(attrs: Seq<Attribute>) -> Seq<Token>
    decreases attrs.len(),
{
    if attrs.len() == 0 {
        seq![]
    } else if attrs.last().outer {
        outer_attr_tokens(attrs.drop_last()).push(Token::Attr(attrs.last().text))
    } else {
        outer_attr_tokens(attrs.drop_last())
    }
}

/// The bounds joined by `+`.
pub open spec fn bound_tokens(bounds: Seq<usize>) -> Seq<Token>
    decreases bounds.len(),
{
    if bounds.len() == 0 {
        seq![]
    } else if bounds.len() == 1 {
        seq![Token::Bound(bounds[0])]
    } else {
        bound_tokens(bounds.drop_last()) + seq![Token::Plus, Token::Bound(bounds.last())]
    }
}

/// The tokens of one parameter in an implementation header: defaults and
/// inner attributes are left off.
pub open spec fn param_item(p: GenericParam) -> Seq<Token> {
    match p {
        GenericParam::Lifetime { text } => seq![Token::Lifetime(text)],
        GenericParam::Type { attrs, ident, bounds, .. } => outer_attr_tokens(attrs@) + seq![
            Token::Ident(ident),
        ] + if bounds@.len() > 0 {
            seq![Token::Colon] + bound_tokens(bounds@)
        } else {
            seq![]
        },
        GenericParam::Const { attrs, ident, ty, .. } => outer_attr_tokens(attrs@) + seq![
            Token::ConstKw,
            Token::Ident(ident),
            Token::Colon,
            Token::Ty(ty),
        ],
    }
}

pub open spec fn entry_items(es: Seq<ParamEntry>) -> Seq<Seq<Token>> {
    es.map_values(|e: ParamEntry| param_item(e.param))
}

/// The items of the rewritten list: `'de`, then the source's lifetimes, then
/// its type and const parameters.
pub open spec fn rewritten_items(ps: Seq<ParamEntry>) -> Seq<Seq<Token>> {
    seq![seq![Token::DeLifetime]] + entry_items(lifetimes(ps)) + entry_items(others(ps))
}

/// Whether the rewritten list ends in a separator: as the last parameter of
/// the last group did in the source, and always when the source is empty.
pub open spec fn ends_with_comma(ps: Seq<ParamEntry>) -> bool {
    if others(ps).len() > 0 {
        others(ps).last().comma
    } else if lifetimes(ps).len() > 0 {
        lifetimes(ps).last().comma
    } else {
        true
    }
}

/// The items separated by single commas.
pub open spec fn join(items: Seq<Seq<Token>>) -> Seq<Token>
    decreases items.len(),
{
    if items.len() == 0 {
        seq![]
    } else if items.len() == 1 {
        items[0]
    } else {
        join(items.drop_last()) + seq![Token::Comma] + items.last()
    }
}

pub open spec fn optional_comma(b: bool) -> Seq<Token> {
    if b {
        seq![Token::Comma]
    } else {
        seq![]
    }
}

/// The implementation-header parameter list for the source list `ps`.
pub open spec fn rewritten(ps: Seq<ParamEntry>) -> Seq<Token> {
    seq![Token::Open] + join(rewritten_items(ps)) + optional_comma(ends_with_comma(ps)) + seq![
        Token::Close,
    ]
}


fn push_outer_attrs(attrs: &Vec<Attribute>, tokens: &mut Vec<Token>)
    ensures
        final(tokens)@ == old(tokens)@ + outer_attr_tokens(attrs@),
{
    let mut k: usize = 0;
    while k < attrs.len()
        invariant
            k <= attrs@.len(),
            tokens@ == old(tokens)@ + outer_attr_tokens(attrs@.take(k as int)),
        decreases attrs@.len() - k,
    {
        let a = attrs[k];
        proof {
            assert(attrs@.take(k as int + 1).drop_last() =~= attrs@.take(k as int));
        }
        if a.outer {
            tokens.push(Token::Attr(a.text));
        }
        k += 1;
        assert(tokens@ =~= old(tokens)@ + outer_attr_tokens(attrs@.take(k as int)));
    }
    assert(attrs@.take(k as int) =~= attrs@);
}

fn push_bounds(bounds: &Vec<usize>, tokens: &mut Vec<Token>)
    ensures
        final(tokens)@ == old(tokens)@ + bound_tokens(bounds@),
{
    let mut k: usize = 0;
    while k < bounds.len()
        invariant
            k <= bounds@.len(),
            tokens@ == old(tokens)@ + bound_tokens(bounds@.take(k as int)),
        decreases bounds@.len() - k,
    {
        proof {
            assert(bounds@.take(k as int + 1).drop_last() =~= bounds@.take(k as int));
        }
        if k > 0 {
            tokens.push(Token::Plus);
        }
        tokens.push(Token::Bound(bounds[k]));
        k += 1;
        assert(tokens@ =~= old(tokens)@ + bound_tokens(bounds@.take(k as int)));
    }
    assert(bounds@.take(k as int) =~= bounds@);
}

/// Emits one parameter for an implementation header, without its default.
fn push_param(p: &GenericParam, tokens: &mut Vec<Token>)
    ensures
        final(tokens)@ == old(tokens)@ + param_item(*p),
{
    match p {
        GenericParam::Lifetime { text } => {
            tokens.push(Token::Lifetime(*text));
        },
        GenericParam::Type { attrs, ident, bounds, .. } => {
            push_outer_attrs(attrs, tokens);
            tokens.push(Token::Ident(*ident));
            if bounds.len() > 0 {
                tokens.push(Token::Colon);
                push_bounds(bounds, tokens);
            }
        },
        GenericParam::Const { attrs, ident, ty, .. } => {
            push_outer_attrs(attrs, tokens);
            tokens.push(Token::ConstKw);
            tokens.push(Token::Ident(*ident));
            tokens.push(Token::Colon);
            tokens.push(Token::Ty(*ty));
        },
    }
    assert(tokens@ =~= old(tokens)@ + param_item(*p));
}

proof fn lemma_join_push(items: Seq<Seq<Token>>, x: Seq<Token>)
    requires
        items.len() > 0,
    ensures
        join(items.push(x)) == join(items) + seq![Token::Comma] + x,
{
    assert(items.push(x).drop_last() =~= items);
}

proof fn lemma_take_step(ps: Seq<ParamEntry>, i: int)
    requires
        0 <= i < ps.len(),
    ensures
        lifetimes(ps.take(i + 1)) == if is_lifetime(ps[i]) {
            lifetimes(ps.take(i)).push(ps[i])
        } else {
            lifetimes(ps.take(i))
        },
        others(ps.take(i + 1)) == if is_lifetime(ps[i]) {
            others(ps.take(i))
        } else {
            others(ps.take(i)).push(ps[i])
        },
{
    assert(ps.take(i + 1).drop_last() =~= ps.take(i));
}

proof fn lemma_items_push(es: Seq<ParamEntry>, e: ParamEntry)
    ensures
        entry_items(es.push(e)) == entry_items(es).push(param_item(e.param)),
{
    assert(entry_items(es.push(e)) =~= entry_items(es).push(param_item(e.param)));
}

/// The parameter list of an implementation header that binds `'de` in
/// addition to the parameters of a type's own list.
pub struct ImplWithDeLifetime<'a>(pub &'a Generics);

impl<'a> ImplWithDeLifetime<'a> {
    /// Appends the rewritten parameter list: `'de` and the source's lifetimes
    /// first, then its type and const parameters without defaults, with
    /// exactly one separator between neighbours.
    pub fn to_tokens(&self, tokens: &mut Vec<Token>)
        requires
            params_wf(self.0.params@),
        ensures
            final(tokens)@ == old(tokens)@ + rewritten(self.0.params@),
    {
        let ps = &self.0.params;
        let ghost base = old(tokens)@ + seq![Token::Open];
        tokens.push(Token::Open);
        tokens.push(Token::DeLifetime);
        tokens.push(Token::Comma);
        let ghost de_items: Seq<Seq<Token>> = seq![seq![Token::DeLifetime]];
        assert(ps@.take(0) =~= Seq::<ParamEntry>::empty());
        assert(join(de_items + entry_items(lifetimes(ps@.take(0)))) =~= seq![Token::DeLifetime]);

        let mut trailing_or_empty = true;
        let mut i: usize = 0;
        while i < ps.len()
            invariant
                i <= ps@.len(),
                ps == &self.0.params,
                params_wf(ps@),
                base == old(tokens)@ + seq![Token::Open],
                de_items == seq![seq![Token::DeLifetime]],
                tokens@ == base + join(de_items + entry_items(lifetimes(ps@.take(i as int))))
                    + optional_comma(trailing_or_empty),
                trailing_or_empty == (lifetimes(ps@.take(i as int)).len() == 0 || lifetimes(
                    ps@.take(i as int),
                ).last().comma),
                i < ps@.len() ==> trailing_or_empty,
            decreases ps@.len() - i,
        {
            let e = &ps[i];
            proof {
                lemma_take_step(ps@, i as int);
            }
            if let GenericParam::Lifetime { .. } = e.param {
                proof {
                    let ls = lifetimes(ps@.take(i as int));
                    lemma_items_push(ls, *e);
                    assert(de_items + entry_items(ls.push(*e)) =~= (de_items + entry_items(ls)).push(param_item(e.param)));
                    lemma_join_push(de_items + entry_items(ls), param_item(e.param));
                }
                push_param(&e.param, tokens);
                if e.comma {
                    tokens.push(Token::Comma);
                }
                trailing_or_empty = e.comma;
            }
            i += 1;
        }
        assert(ps@.take(i as int) =~= ps@);
        let ghost life_items = de_items + entry_items(lifetimes(ps@));
        let ghost ends = trailing_or_empty;
        assert(ps@.take(0) =~= Seq::<ParamEntry>::empty());
        assert(life_items + entry_items(others(ps@.take(0))) =~= life_items);

        let mut i: usize = 0;
        while i < ps.len()
            invariant
                i <= ps@.len(),
                ps == &self.0.params,
                params_wf(ps@),
                base == old(tokens)@ + seq![Token::Open],
                life_items == de_items + entry_items(lifetimes(ps@)),
                de_items == seq![seq![Token::DeLifetime]],
                ends == (lifetimes(ps@).len() == 0 || lifetimes(ps@).last().comma),
                tokens@ == base + join(life_items + entry_items(others(ps@.take(i as int))))
                    + optional_comma(
                    if others(ps@.take(i as int)).len() > 0 {
                        others(ps@.take(i as int)).last().comma
                    } else {
                        ends
                    },
                ),
                others(ps@.take(i as int)).len() == 0 ==> trailing_or_empty == ends,
                others(ps@.take(i as int)).len() > 0 ==> trailing_or_empty,
                others(ps@.take(i as int)).len() > 0 && i < ps@.len() ==> others(
                    ps@.take(i as int),
                ).last().comma,
            decreases ps@.len() - i,
        {
            let e = &ps[i];
            proof {
                lemma_take_step(ps@, i as int);
            }
            if let GenericParam::Lifetime { .. } = e.param {
            } else {
                if !trailing_or_empty {
                    tokens.push(Token::Comma);
                    trailing_or_empty = true;
                }
                proof {
                    let os = others(ps@.take(i as int));
                    lemma_items_push(os, *e);
                    assert(life_items + entry_items(os.push(*e)) =~= (life_items + entry_items(os)).push(param_item(e.param)));
                    lemma_join_push(life_items + entry_items(os), param_item(e.param));
                }
                push_param(&e.param, tokens);
                if e.comma {
                    tokens.push(Token::Comma);
                }
            }
            i += 1;
        }
        assert(ps@.take(i as int) =~= ps@);
        tokens.push(Token::Close);
        assert(life_items + entry_items(others(ps@)) =~= rewritten_items(ps@));
        assert(tokens@ =~= old(tokens)@ + rewritten(self.0.params@));
    }
}


pub open spec fn comma_free(s: Seq<Token>) -> bool {
    forall|k: int| 0 <= k < s.len() ==> s[k] != Token::Comma
}

/// The pieces of `s` between its commas.
pub open spec fn split_commas(s: Seq<Token>) -> Seq<Seq<Token>>
    decreases s.len(),
{
    if s.len() == 0 {
        seq![seq![]]
    } else if s.last() == Token::Comma {
        split_commas(s.drop_last()).push(seq![])
    } else {
        let r = split_commas(s.drop_last());
        r.update(r.len() - 1, r.last().push(s.last()))
    }
}

/// Reads a generic parameter list back: `<`, then parameters separated by
/// single commas with at most one trailing comma, then `>`. `None` when the
/// text is no such list: a bracket is missing, or a parameter is empty.
pub open spec fn parse_params(s: Seq<Token>) -> Option<Seq<Seq<Token>>> {
    if s.len() >= 2 && s[0] == Token::Open && s.last() == Token::Close {
        let parts = split_commas(s.subrange(1, s.len() - 1));
        let items = if parts.last().len() == 0 {
            parts.drop_last()
        } else {
            parts
        };
        if items.len() > 0 && forall|i: int| 0 <= i < items.len() ==> #[trigger] items[i].len() > 0 {
            Some(items)
        } else {
            None
        }
    } else {
        None
    }
}

pub open spec fn is_lifetime_item(item: Seq<Token>) -> bool {
    item.len() == 1 && (item[0] is DeLifetime || item[0] is Lifetime)
}

/// The parameter with its default left off.
pub open spec fn without_default(e: ParamEntry) -> ParamEntry {
    match e.param {
        GenericParam::Lifetime { .. } => e,
        GenericParam::Type { attrs, ident, bounds, .. } => ParamEntry {
            param: GenericParam::Type { attrs, ident, bounds, default: None },
            comma: e.comma,
        },
        GenericParam::Const { attrs, ident, ty, .. } => ParamEntry {
            param: GenericParam::Const { attrs, ident, ty, default: None },
            comma: e.comma,
        },
    }
}

proof fn lemma_split_len(s: Seq<Token>)
    ensures
        split_commas(s).len() >= 1,
    decreases s.len(),
{
    if s.len() > 0 {
        lemma_split_len(s.drop_last());
    }
}

proof fn lemma_split_append(a: Seq<Token>, b: Seq<Token>)
    requires
        comma_free(b),
    ensures
        split_commas(a + b) == split_commas(a).update(
            split_commas(a).len() - 1,
            split_commas(a).last() + b,
        ),
    decreases b.len(),
{
    lemma_split_len(a);
    if b.len() == 0 {
        assert(a + b =~= a);
        assert(split_commas(a).last() + b =~= split_commas(a).last());
        assert(split_commas(a).update(split_commas(a).len() - 1, split_commas(a).last())
            =~= split_commas(a));
    } else {
        let bl = b.drop_last();
        assert(comma_free(bl));
        lemma_split_append(a, bl);
        assert((a + b).drop_last() =~= a + bl);
        assert(b.last() == b[b.len() - 1]);
        assert((a + b).last() == b.last());
        assert(split_commas(a).last() + b =~= (split_commas(a).last() + bl).push(b.last()));
        assert(split_commas(a + b) =~= split_commas(a).update(
            split_commas(a).len() - 1,
            split_commas(a).last() + b,
        ));
    }
}

proof fn lemma_split_join(items: Seq<Seq<Token>>)
    requires
        items.len() >= 1,
        forall|i: int| 0 <= i < items.len() ==> comma_free(#[trigger] items[i]),
    ensures
        split_commas(join(items)) == items,
    decreases items.len(),
{
    let e = Seq::<Token>::empty();
    lemma_split_append(e, items.last());
    assert(split_commas(e) == seq![e]);
    assert(e + items.last() =~= items.last());
    if items.len() == 1 {
        assert(split_commas(join(items)) =~= items);
    } else {
        let dl = items.drop_last();
        assert forall|i: int| 0 <= i < dl.len() implies comma_free(#[trigger] dl[i]) by {
            assert(dl[i] == items[i]);
        }
        lemma_split_join(dl);
        let pre = join(dl) + seq![Token::Comma];
        assert(pre.drop_last() =~= join(dl));
        assert(split_commas(pre) == dl.push(e));
        lemma_split_append(pre, items.last());
        assert(join(items) == pre + items.last());
        assert(split_commas(pre).last() + items.last() =~= items.last());
        assert(split_commas(join(items)) =~= items);
    }
}

proof fn lemma_attr_tokens(attrs: Seq<Attribute>)
    ensures
        forall|k: int| 0 <= k < outer_attr_tokens(attrs).len() ==> #[trigger] outer_attr_tokens(
            attrs,
        )[k] is Attr,
    decreases attrs.len(),
{
    if attrs.len() > 0 {
        lemma_attr_tokens(attrs.drop_last());
    }
}

proof fn lemma_bound_tokens(bounds: Seq<usize>)
    ensures
        comma_free(bound_tokens(bounds)),
    decreases bounds.len(),
{
    if bounds.len() > 1 {
        lemma_bound_tokens(bounds.drop_last());
    }
}

proof fn lemma_param_item(p: GenericParam)
    ensures
        param_item(p).len() > 0,
        comma_free(param_item(p)),
        (p is Lifetime) == is_lifetime_item(param_item(p)),
{
    match p {
        GenericParam::Lifetime { .. } => {},
        GenericParam::Type { attrs, bounds, .. } => {
            lemma_attr_tokens(attrs@);
            lemma_bound_tokens(bounds@);
        },
        GenericParam::Const { attrs, .. } => {
            lemma_attr_tokens(attrs@);
        },
    }
}

proof fn lemma_groups(ps: Seq<ParamEntry>)
    ensures
        forall|k: int| 0 <= k < lifetimes(ps).len() ==> is_lifetime(#[trigger] lifetimes(ps)[k]),
        forall|k: int| 0 <= k < others(ps).len() ==> !is_lifetime(#[trigger] others(ps)[k]),
        lifetimes(ps).len() + others(ps).len() == ps.len(),
        lifetimes(ps.map_values(|e: ParamEntry| without_default(e))) == lifetimes(ps).map_values(
            |e: ParamEntry| without_default(e),
        ),
        others(ps.map_values(|e: ParamEntry| without_default(e))) == others(ps).map_values(
            |e: ParamEntry| without_default(e),
        ),
    decreases ps.len(),
{
    let f = |e: ParamEntry| without_default(e);
    if ps.len() > 0 {
        lemma_groups(ps.drop_last());
        assert(ps.map_values(f).drop_last() =~= ps.drop_last().map_values(f));
        assert(ps.map_values(f).last() == f(ps.last()));
        assert(lifetimes(ps.map_values(f)) =~= lifetimes(ps).map_values(f));
        assert(others(ps.map_values(f)) =~= others(ps).map_values(f));
    } else {
        assert(lifetimes(ps.map_values(f)) =~= lifetimes(ps).map_values(f));
        assert(others(ps.map_values(f)) =~= others(ps).map_values(f));
    }
}

/// Every item of the rewritten list is a parameter: not empty, and free of
/// separators.
proof fn lemma_items_well_formed(ps: Seq<ParamEntry>)
    ensures
        forall|i: int|
            0 <= i < rewritten_items(ps).len() ==> #[trigger] rewritten_items(ps)[i].len() > 0
                && comma_free(rewritten_items(ps)[i]),
{
    let items = rewritten_items(ps);
    assert forall|i: int| 0 <= i < items.len() implies #[trigger] items[i].len() > 0 && comma_free(
        items[i],
    ) by {
        let nl = lifetimes(ps).len() as int;
        if i == 0 {
        } else if i <= nl {
            lemma_param_item(lifetimes(ps)[i - 1].param);
        } else {
            lemma_param_item(others(ps)[i - 1 - nl].param);
        }
    }
}

/// The rewritten list reads back as a generic parameter list whose
/// parameters are `'de`, then the source's lifetime parameters in source
/// order, then its type and const parameters in source order: never an empty
/// parameter, a doubled or a missing separator, whatever the mix of kinds
/// and trailing separators in the source.
pub proof fn lemma_rewritten_parses(ps: Seq<ParamEntry>)
    requires
        params_wf(ps),
    ensures
        parse_params(rewritten(ps)) == Some(rewritten_items(ps)),
{
    let items = rewritten_items(ps);
    lemma_items_well_formed(ps);
    assert forall|i: int| 0 <= i < items.len() implies comma_free(#[trigger] items[i]) by {}
    lemma_split_join(items);
    let s = rewritten(ps);
    let inner = join(items) + optional_comma(ends_with_comma(ps));
    assert(s.subrange(1, s.len() - 1) =~= inner);
    if ends_with_comma(ps) {
        assert((join(items) + seq![Token::Comma]).drop_last() =~= join(items));
        assert(split_commas(inner) == items.push(seq![]));
        assert(items.push(seq![]).drop_last() =~= items);
    } else {
        assert(inner =~= join(items));
        assert(items.last().len() > 0);
    }
}

/// The rewritten list has exactly one lifetime parameter more than the
/// source, all lifetimes stand before every type and const parameter, the
/// type and const parameters keep their attributes, identifiers, bounds and
/// types, and no default is carried over.
pub proof fn lemma_lifetime_insertion(ps: Seq<ParamEntry>)
    ensures
        ({
            let items = rewritten_items(ps);
            let n = lifetimes(ps).len() + 1int;
            &&& items.len() == ps.len() + 1
            &&& forall|i: int| 0 <= i < n ==> is_lifetime_item(#[trigger] items[i])
            &&& forall|i: int| n <= i < items.len() ==> !is_lifetime_item(#[trigger] items[i])
            &&& items.skip(n) == entry_items(others(ps))
            &&& rewritten(ps) == rewritten(ps.map_values(|e: ParamEntry| without_default(e)))
        }),
{
    let items = rewritten_items(ps);
    let nl = lifetimes(ps).len() as int;
    lemma_groups(ps);
    assert forall|i: int| 0 <= i < nl + 1 implies is_lifetime_item(#[trigger] items[i]) by {
        if i > 0 {
            lemma_param_item(lifetimes(ps)[i - 1].param);
        }
    }
    assert forall|i: int| nl + 1 <= i < items.len() implies !is_lifetime_item(
        #[trigger] items[i],
    ) by {
        lemma_param_item(others(ps)[i - 1 - nl].param);
    }
    assert(items.skip(nl + 1) =~= entry_items(others(ps)));
    let f = |e: ParamEntry| without_default(e);
    let qs = ps.map_values(f);
    assert(entry_items(lifetimes(qs)) =~= entry_items(lifetimes(ps)));
    assert(entry_items(others(qs)) =~= entry_items(others(ps)));
    assert(rewritten_items(qs) =~= items);
    assert(ends_with_comma(qs) == ends_with_comma(ps));
}

} // verus!
