//! What an invocation compiles to, as spec functions from the syntax tree to
//! token sequences.
use vstd::prelude::*;

use crate::syntax::{Body, Field, Invocation, Item, Target, ValueExpr};
use crate::token::{Delimiter, Spacing, Tok};

verus! {

/// A lone punctuation character.
pub open spec fn punct(c: char) -> Tok {
    Tok::Punct(c, Spacing::Alone)
}

/// A punctuation character glued to the next one.
pub open spec fn joint(c: char) -> Tok {
    Tok::Punct(c, Spacing::Joint)
}

/// `::`
pub open spec fn path_sep() -> Seq<Tok> {
    seq![joint(':'), punct(':')]
}

/// `f(arg)` for the conversion expression `f`.
pub open spec fn conv_call(conv: Seq<Tok>, arg: Seq<Tok>) -> Seq<Tok> {
    conv.push(Tok::Group(Delimiter::Parenthesis, arg))
}

/// `::core::default::Default`
pub open spec fn default_trait() -> Seq<Tok> {
    path_sep() + seq![Tok::Ident("core"@)] + path_sep() + seq![Tok::Ident("default"@)] + path_sep()
        + seq![Tok::Ident("Default"@)]
}

/// `..::core::default::Default::default()`, which fills every field not
/// given from the type's default value.
pub open spec fn default_trailer() -> Seq<Tok> {
    seq![joint('.'), punct('.')] + default_trait() + path_sep() + seq![
        Tok::Ident("default"@),
        Tok::Group(Delimiter::Parenthesis, Seq::empty()),
    ]
}

/// `<T as ::core::default::Default>::default()`
pub open spec fn default_of(ty: Seq<Tok>) -> Seq<Tok> {
    seq![punct('<')] + ty + seq![Tok::Ident("as"@)] + default_trait() + seq![punct('>')]
        + path_sep() + seq![
        Tok::Ident("default"@),
        Tok::Group(Delimiter::Parenthesis, Seq::empty()),
    ]
}

/// What a value compiles to.
pub open spec fn emit_value(conv: Seq<Tok>, v: ValueExpr) -> Seq<Tok>
    decreases v,
{
    match v {
        ValueExpr::Passthrough(t) => seq![t],
        ValueExpr::Effect(name, inner) => seq![
            Tok::Ident(name),
            Tok::Group(Delimiter::Parenthesis, emit_value(conv, *inner)),
        ],
        ValueExpr::ArrayCollect(vs) => conv_call(
            conv,
            seq![Tok::Group(Delimiter::Bracket, emit_list(conv, vs))],
        ),
        ValueExpr::Nested(t) => conv_call(conv, emit_target(conv, *t)),
        ValueExpr::Plain(toks) => conv_call(conv, toks),
    }
}

/// `v1, v2, ...,`
pub open spec fn emit_list(conv: Seq<Tok>, vs: Seq<ValueExpr>) -> Seq<Tok>
    decreases vs,
{
    if vs.len() == 0 {
        Seq::empty()
    } else {
        emit_value(conv, vs[0]).push(punct(',')) + emit_list(conv, vs.subrange(1, vs.len() as int))
    }
}

/// Each field's name with its compiled value, in the order given.
pub open spec fn assignments(conv: Seq<Tok>, fs: Seq<Field>) -> Seq<(Seq<char>, Seq<Tok>)>
    decreases fs,
{
    if fs.len() == 0 {
        Seq::empty()
    } else {
        seq![(fs[0].name, emit_value(conv, fs[0].value))] + assignments(
            conv,
            fs.subrange(1, fs.len() as int),
        )
    }
}

/// What a construction compiles to.
pub open spec fn emit_target(conv: Seq<Tok>, t: Target) -> Seq<Tok>
    decreases t,
{
    match t.body {
        Body::Fields(fs) => t.path.push(
            Tok::Group(
                Delimiter::Brace,
                render(kept(assignments(conv, fs))) + default_trailer(),
            ),
        ),
        Body::Positional(vs) => t.path.push(
            Tok::Group(Delimiter::Parenthesis, emit_list(conv, vs)),
        ),
    }
}

/// The name is assigned again further on.
pub open spec fn overridden(name: Seq<char>, rest: Seq<(Seq<char>, Seq<Tok>)>) -> bool {
    exists|i: int| 0 <= i < rest.len() && #[trigger] rest[i].0 == name
}

/// The assignments that are not overridden by a later one of the same name.
pub open spec fn kept(asg: Seq<(Seq<char>, Seq<Tok>)>) -> Seq<(Seq<char>, Seq<Tok>)>
    decreases asg.len(),
{
    if asg.len() == 0 {
        Seq::empty()
    } else {
        let rest = asg.subrange(1, asg.len() as int);
        if overridden(asg[0].0, rest) {
            kept(rest)
        } else {
            seq![asg[0]] + kept(rest)
        }
    }
}

/// `name: value,` for each assignment.
pub open spec fn render(asg: Seq<(Seq<char>, Seq<Tok>)>) -> Seq<Tok>
    decreases asg.len(),
{
    if asg.len() == 0 {
        Seq::empty()
    } else {
        seq![Tok::Ident(asg[0].0), punct(':')] + asg[0].1.push(punct(',')) + render(
            asg.subrange(1, asg.len() as int),
        )
    }
}

/// What a top-level item compiles to.
pub open spec fn emit_item(conv: Seq<Tok>, item: Item) -> Seq<Tok> {
    match item {
        Item::Verbatim(t) => seq![t],
        Item::Construct(t) => emit_target(conv, t),
        Item::DefaultOf(ty) => default_of(ty),
    }
}

/// `e1, e2, ...` without a trailing comma.
pub open spec fn join_items(conv: Seq<Tok>, items: Seq<Item>) -> Seq<Tok>
    decreases items.len(),
{
    if items.len() == 0 {
        Seq::empty()
    } else if items.len() == 1 {
        emit_item(conv, items[0])
    } else {
        emit_item(conv, items[0]).push(punct(',')) + join_items(
            conv,
            items.subrange(1, items.len() as int),
        )
    }
}

/// One item stands alone; several form a tuple. Imports, when given, open a
/// block around the result.
pub open spec fn emit_invocation(inv: Invocation) -> Seq<Tok> {
    let body = if inv.items.len() == 1 {
        emit_item(inv.conversion, inv.items[0])
    } else {
        seq![Tok::Group(Delimiter::Parenthesis, join_items(inv.conversion, inv.items))]
    };
    match inv.imports {
        Some(imports) => seq![Tok::Group(Delimiter::Brace, imports + body)],
        None => body,
    }
}

} // verus!
