//! The grammar of an invocation, as spec functions from token sequences to a
//! syntax tree.
use vstd::prelude::*;

use crate::error::CompileError;
use crate::split::{is_punct, lemma_scan_bounds, scan};
use crate::token::{Delimiter, Tok};

verus! {

/// How one value is to be compiled.
pub enum ValueExpr {
    /// `{ ... }` on its own: emitted as it stands, without conversion.
    Passthrough(Tok),
    /// `@name inner`: the named effect applied to the compiled inner value.
    Effect(Seq<char>, Box<ValueExpr>),
    /// `@arr [a, b, ..]`: every element compiled on its own, then collected.
    ArrayCollect(Seq<ValueExpr>),
    /// `Path { .. }`: a nested construction.
    Nested(Box<Target>),
    /// Any other run of tokens: a leaf expression, converted.
    Plain(Seq<Tok>),
}

/// One `name: value` entry of a field list.
pub struct Field {
    pub name: Seq<char>,
    pub value: ValueExpr,
}

/// The body of a construction: named fields, or positional values.
pub enum Body {
    Fields(Seq<Field>),
    Positional(Seq<ValueExpr>),
}

/// A construction: a type path (with its generic arguments) and a body.
pub struct Target {
    pub path: Seq<Tok>,
    pub body: Body,
}

/// One top-level item of an invocation.
pub enum Item {
    /// A lone group: emitted as it stands.
    Verbatim(Tok),
    Construct(Target),
    /// A type without a body: its default value.
    DefaultOf(Seq<Tok>),
}

/// A whole invocation.
pub struct Invocation {
    pub imports: Option<Seq<Tok>>,
    pub conversion: Seq<Tok>,
    pub items: Seq<Item>,
}

/// `::` at `i`.
pub open spec fn is_path_sep_at(toks: Seq<Tok>, i: int) -> bool {
    0 <= i && i + 1 < toks.len() && is_punct(toks[i], ':') && is_punct(toks[i + 1], ':')
}

/// A comma-separated list of generic arguments, each a non-empty run with
/// balanced angle brackets, with an optional trailing comma.
pub open spec fn generic_args_ok(toks: Seq<Tok>) -> bool
    decreases toks.len(),
{
    match scan(toks, 0, 0, true) {
        Ok((j, d)) => {
            proof {
                lemma_scan_bounds(toks, 0, 0, true);
            }
            j > 0 && d == 0 && (j + 1 >= toks.len() || generic_args_ok(
                toks.subrange(j + 1, toks.len() as int),
            ))
        },
        Err(_) => false,
    }
}

/// `Ident ('::' Ident)* ('::' '<' GenericArgs '>')?` from index `i` to the end.
pub open spec fn is_path_from(toks: Seq<Tok>, i: int) -> bool
    decreases toks.len() - i,
{
    if 0 <= i < toks.len() && toks[i] is Ident {
        if i + 1 == toks.len() {
            true
        } else if is_path_sep_at(toks, i + 1) && i + 3 < toks.len() {
            if is_punct(toks[i + 3], '<') {
                i + 5 <= toks.len() && is_punct(toks[toks.len() - 1], '>') && generic_args_ok(
                    toks.subrange(i + 4, toks.len() - 1),
                )
            } else {
                is_path_from(toks, i + 3)
            }
        } else {
            false
        }
    } else {
        false
    }
}

/// A type path, rooted (`::a::B`) or relative (`a::B`), with optional
/// turbofish generic arguments (`B::<'a, T>`).
pub open spec fn is_type_path(toks: Seq<Tok>) -> bool {
    if is_path_sep_at(toks, 0) {
        is_path_from(toks, 2)
    } else {
        is_path_from(toks, 0)
    }
}

/// The token is a group with delimiter `d`.
pub open spec fn is_group(t: Tok, d: Delimiter) -> bool {
    t matches Tok::Group(e, _) && e == d
}

/// The tokens inside a group.
pub open spec fn group_inner(t: Tok) -> Seq<Tok> {
    match t {
        Tok::Group(_, inner) => inner,
        _ => Seq::empty(),
    }
}

/// The name an effect is called by: `box` is an alias of `boxed`.
pub open spec fn effect_name(name: Seq<char>) -> Seq<char> {
    if name == "box"@ {
        "boxed"@
    } else {
        name
    }
}

/// The effect that collects an array literal.
pub open spec fn array_effect() -> Seq<char> {
    "arr"@
}

/// Classifies one value.
pub open spec fn parse_value(toks: Seq<Tok>) -> Result<ValueExpr, CompileError>
    decreases toks, 0nat,
{
    let n = toks.len();
    if n == 0 {
        Err(CompileError::MalformedField)
    } else if n > 1 && is_group(toks[n - 1], Delimiter::Brace) && is_type_path(
        toks.subrange(0, n - 1),
    ) {
        match toks[n - 1] {
            Tok::Group(_, inner) => match parse_fields(inner) {
                Ok(fs) => Ok(
                    ValueExpr::Nested(
                        Box::new(Target { path: toks.subrange(0, n - 1), body: Body::Fields(fs) }),
                    ),
                ),
                Err(e) => Err(e),
            },
            _ => Err(CompileError::MalformedField),
        }
    } else if n == 1 && is_group(toks[0], Delimiter::Brace) {
        Ok(ValueExpr::Passthrough(toks[0]))
    } else if is_punct(toks[0], '@') {
        if n >= 2 && toks[1] is Ident {
            let name = effect_name(toks[1]->Ident_0);
            if name == array_effect() && n == 3 && is_group(toks[2], Delimiter::Bracket) {
                match toks[2] {
                    Tok::Group(_, inner) => match parse_list(inner) {
                        Ok(vs) => Ok(
                            ValueExpr::Effect(name, Box::new(ValueExpr::ArrayCollect(vs))),
                        ),
                        Err(e) => Err(e),
                    },
                    _ => Err(CompileError::MalformedEffect),
                }
            } else {
                match parse_value(toks.subrange(2, n as int)) {
                    Ok(v) => Ok(ValueExpr::Effect(name, Box::new(v))),
                    Err(e) => Err(e),
                }
            }
        } else {
            Err(CompileError::MalformedEffect)
        }
    } else {
        Ok(ValueExpr::Plain(toks))
    }
}

/// Parses `name: value, name: value, ...` with an optional trailing comma.
pub open spec fn parse_fields(toks: Seq<Tok>) -> Result<Seq<Field>, CompileError>
    decreases toks, 1nat,
{
    if toks.len() == 0 {
        Ok(Seq::empty())
    } else {
        match scan(toks, 0, 0, false) {
            Ok((j, _)) => {
                proof {
                    lemma_scan_bounds(toks, 0, 0, false);
                }
                if j >= 3 && toks[0] is Ident && is_punct(toks[1], ':') {
                    match parse_value(toks.subrange(2, j)) {
                        Ok(v) => {
                            let f = Field { name: toks[0]->Ident_0, value: v };
                            if j + 1 >= toks.len() {
                                Ok(seq![f])
                            } else {
                                match parse_fields(toks.subrange(j + 1, toks.len() as int)) {
                                    Ok(rest) => Ok(seq![f] + rest),
                                    Err(e) => Err(e),
                                }
                            }
                        },
                        Err(e) => Err(e),
                    }
                } else {
                    Err(CompileError::MalformedField)
                }
            },
            Err(e) => Err(e),
        }
    }
}

/// Parses `value, value, ...` with an optional trailing comma.
pub open spec fn parse_list(toks: Seq<Tok>) -> Result<Seq<ValueExpr>, CompileError>
    decreases toks, 1nat,
{
    if toks.len() == 0 {
        Ok(Seq::empty())
    } else {
        match scan(toks, 0, 0, false) {
            Ok((j, _)) => {
                proof {
                    lemma_scan_bounds(toks, 0, 0, false);
                }
                if j == toks.len() {
                    match parse_value(toks) {
                        Ok(v) => Ok(seq![v]),
                        Err(e) => Err(e),
                    }
                } else {
                    match parse_value(toks.subrange(0, j)) {
                        Ok(v) => if j + 1 >= toks.len() {
                            Ok(seq![v])
                        } else {
                            match parse_list(toks.subrange(j + 1, toks.len() as int)) {
                                Ok(rest) => Ok(seq![v] + rest),
                                Err(e) => Err(e),
                            }
                        },
                        Err(e) => Err(e),
                    }
                }
            },
            Err(e) => Err(e),
        }
    }
}

/// Parses one top-level target.
pub open spec fn parse_target(toks: Seq<Tok>) -> Result<Item, CompileError> {
    let n = toks.len();
    if n == 0 {
        Err(CompileError::MalformedInvocation)
    } else if n == 1 && toks[0] is Group {
        Ok(Item::Verbatim(toks[0]))
    } else if is_group(toks[n - 1], Delimiter::Brace) {
        if is_type_path(toks.subrange(0, n - 1)) {
            match parse_fields(group_inner(toks[n - 1])) {
                Ok(fs) => Ok(
                    Item::Construct(Target { path: toks.subrange(0, n - 1), body: Body::Fields(fs) }),
                ),
                Err(e) => Err(e),
            }
        } else {
            Err(CompileError::MalformedInvocation)
        }
    } else if is_group(toks[n - 1], Delimiter::Parenthesis) {
        if is_type_path(toks.subrange(0, n - 1)) {
            match parse_list(group_inner(toks[n - 1])) {
                Ok(vs) => Ok(
                    Item::Construct(
                        Target { path: toks.subrange(0, n - 1), body: Body::Positional(vs) },
                    ),
                ),
                Err(e) => Err(e),
            }
        } else {
            Err(CompileError::MalformedInvocation)
        }
    } else {
        Ok(Item::DefaultOf(toks))
    }
}

/// Parses the comma-separated targets of an invocation, with an optional
/// trailing comma. Commas inside generic-argument lists do not separate.
pub open spec fn parse_targets(toks: Seq<Tok>) -> Result<Seq<Item>, CompileError>
    decreases toks.len(),
{
    match scan(toks, 0, 0, true) {
        Ok((j, _)) => {
            proof {
                lemma_scan_bounds(toks, 0, 0, true);
            }
            match parse_target(toks.subrange(0, j)) {
                Ok(item) => if j + 1 >= toks.len() {
                    Ok(seq![item])
                } else {
                    match parse_targets(toks.subrange(j + 1, toks.len() as int)) {
                        Ok(rest) => Ok(seq![item] + rest),
                        Err(e) => Err(e),
                    }
                },
                Err(e) => Err(e),
            }
        },
        Err(e) => Err(e),
    }
}

/// Parses a whole invocation: `{ imports }? [conversion] targets`.
pub open spec fn parse_invocation(toks: Seq<Tok>) -> Result<Invocation, CompileError> {
    let has_imports = toks.len() > 0 && is_group(toks[0], Delimiter::Brace);
    let rest = if has_imports {
        toks.subrange(1, toks.len() as int)
    } else {
        toks
    };
    if rest.len() > 0 && is_group(rest[0], Delimiter::Bracket) {
        match parse_targets(rest.subrange(1, rest.len() as int)) {
            Ok(items) => Ok(
                Invocation {
                    imports: if has_imports {
                        Some(group_inner(toks[0]))
                    } else {
                        None
                    },
                    conversion: group_inner(rest[0]),
                    items,
                },
            ),
            Err(e) => Err(e),
        }
    } else {
        Err(CompileError::MalformedInvocation)
    }
}

} // verus!
