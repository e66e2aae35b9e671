//! The driver: an invocation's imports, conversion function and targets.
use vstd::prelude::*;

use crate::compile::{compile_list, push_fields_body};
use crate::emit::{default_of, emit_invocation, emit_item, emit_list, join_items, punct};
use crate::error::CompileError;
use crate::output::{
    copy_range, ident_token, push_default_call, push_default_trait, push_token, punct_token,
};
use crate::path::is_type_path_range;
use crate::split::{lemma_scan_bounds, scan_run};
use crate::syntax::{parse_invocation, parse_list, parse_target, parse_targets, Item};
use crate::token::{
    copy_token, lemma_toks_view_index, lemma_toks_view_len, toks_view, Delimiter, Tok, Token,
};

verus! {

broadcast use {lemma_toks_view_len, lemma_toks_view_index};

/// Compiles one top-level target `toks[lo..hi]`, appending the result to `out`.
fn compile_target(
    conv: &Vec<Token>,
    toks: &Vec<Token>,
    lo: usize,
    hi: usize,
    out: &mut Vec<Token>,
) -> (r: Result<(), CompileError>)
    requires
        lo <= hi <= toks.len(),
    ensures
        match parse_target(toks_view(toks@).subrange(lo as int, hi as int)) {
            Ok(item) => r is Ok && toks_view(final(out)@) == toks_view(old(out)@) + emit_item(
                toks_view(conv@),
                item,
            ),
            Err(e) => r == Err::<(), CompileError>(e),
        },
{
    let ghost s = toks_view(toks@).subrange(lo as int, hi as int);
    let ghost c = toks_view(conv@);
    let ghost start = toks_view(out@);
    if lo == hi {
        return Err(CompileError::MalformedInvocation);
    }
    let n = hi - lo;
    assert(s[n - 1] == toks@[hi - 1].view());
    assert(s[0] == toks@[lo as int].view());
    assert(s.subrange(0, n - 1) =~= toks_view(toks@).subrange(lo as int, hi - 1));
    if n == 1 {
        if let Token::Group(_, _) = &toks[lo] {
            push_token(out, copy_token(&toks[lo]));
            assert(toks_view(out@) =~= start + seq![s[0]]);
            return Ok(());
        }
    }
    match &toks[hi - 1] {
        Token::Group(Delimiter::Brace, inner) => {
            if !is_type_path_range(toks, lo, hi - 1) {
                return Err(CompileError::MalformedInvocation);
            }
            copy_range(toks, lo, hi - 1, out);
            match push_fields_body(conv, inner, out) {
                Ok(()) => {},
                Err(e) => {
                    return Err(e);
                },
            }
            assert(toks_view(out@) =~= start + emit_item(c, parse_target(s)->Ok_0));
            Ok(())
        },
        Token::Group(Delimiter::Parenthesis, inner) => {
            if !is_type_path_range(toks, lo, hi - 1) {
                return Err(CompileError::MalformedInvocation);
            }
            assert(toks_view(inner@).subrange(0, inner.len() as int) =~= toks_view(inner@));
            let mut elems: Vec<Token> = Vec::new();
            match compile_list(conv, inner, 0, inner.len(), &mut elems) {
                Ok(()) => {},
                Err(e) => {
                    return Err(e);
                },
            }
            let ghost vs = parse_list(toks_view(inner@))->Ok_0;
            assert(toks_view(elems@) =~= emit_list(c, vs));
            copy_range(toks, lo, hi - 1, out);
            push_token(out, Token::Group(Delimiter::Parenthesis, elems));
            assert(toks_view(out@) =~= start + emit_item(c, parse_target(s)->Ok_0));
            Ok(())
        },
        _ => {
            push_token(out, punct_token('<'));
            copy_range(toks, lo, hi, out);
            push_token(out, ident_token("as"));
            push_default_trait(out);
            push_token(out, punct_token('>'));
            push_default_call(out);
            assert(toks_view(out@) =~= start + default_of(s));
            Ok(())
        },
    }
}

/// Compiles the comma-separated targets `toks[lo..hi]`, one token sequence
/// per target.
fn compile_targets(conv: &Vec<Token>, toks: &Vec<Token>, lo: usize, hi: usize) -> (r: Result<
    Vec<Vec<Token>>,
    CompileError,
>)
    requires
        lo <= hi <= toks.len(),
    ensures
        match parse_targets(toks_view(toks@).subrange(lo as int, hi as int)) {
            Ok(items) => r matches Ok(outs) && outs.len() == items.len() && forall|i: int|
                0 <= i < items.len() ==> #[trigger] toks_view(outs@[i]@) == emit_item(
                    toks_view(conv@),
                    items[i],
                ),
            Err(e) => r == Err::<Vec<Vec<Token>>, CompileError>(e),
        },
{
    let ghost whole = toks_view(toks@).subrange(lo as int, hi as int);
    let ghost c = toks_view(conv@);
    let mut outs: Vec<Vec<Token>> = Vec::new();
    let ghost mut done: Seq<Item> = Seq::empty();
    let mut pos: usize = lo;
    assert(whole =~= toks_view(toks@).subrange(pos as int, hi as int));
    loop
        invariant
            lo <= pos <= hi <= toks.len(),
            whole == toks_view(toks@).subrange(lo as int, hi as int),
            c == toks_view(conv@),
            outs.len() == done.len(),
            forall|i: int|
                0 <= i < done.len() ==> #[trigger] toks_view(outs@[i]@) == emit_item(c, done[i]),
            match parse_targets(toks_view(toks@).subrange(pos as int, hi as int)) {
                Ok(rest) => parse_targets(whole) == Ok::<Seq<Item>, CompileError>(done + rest),
                Err(e) => parse_targets(whole) == Err::<Seq<Item>, CompileError>(e),
            },
        decreases hi - pos,
    {
        let ghost sp = toks_view(toks@).subrange(pos as int, hi as int);
        proof {
            lemma_scan_bounds(sp, 0, 0, true);
        }
        let (j, _) = match scan_run(toks, pos, hi, true) {
            Ok(x) => x,
            Err(e) => {
                return Err(e);
            },
        };
        assert(sp.subrange(0, j - pos) =~= toks_view(toks@).subrange(pos as int, j as int));
        let mut one: Vec<Token> = Vec::new();
        match compile_target(conv, toks, pos, j, &mut one) {
            Ok(()) => {},
            Err(e) => {
                return Err(e);
            },
        }
        let ghost item = parse_target(sp.subrange(0, j - pos))->Ok_0;
        assert(toks_view(one@) =~= emit_item(c, item));
        outs.push(one);
        let ghost old_done = done;
        proof {
            done = done.push(item);
        }
        if hi - j <= 1 {
            assert(done =~= old_done + seq![item]);
            return Ok(outs);
        }
        proof {
            let rest_toks = sp.subrange(j - pos + 1, sp.len() as int);
            assert(rest_toks =~= toks_view(toks@).subrange(j + 1, hi as int));
            if let Ok(rest) = parse_targets(rest_toks) {
                assert(parse_targets(sp) == Ok::<Seq<Item>, CompileError>(seq![item] + rest));
                assert(old_done + (seq![item] + rest) =~= done + rest);
            }
        }
        pos = j + 1;
    }
}

/// Compiles one invocation: `{ imports }? [conversion] Target, Target, ...`.
///
/// A single target compiles to its construction expression, several to a
/// tuple of them; imports, when given, open a block around the result.
pub fn meta_default_constructor(tokens: Vec<Token>) -> (r: Result<Vec<Token>, CompileError>)
    ensures
        match parse_invocation(toks_view(tokens@)) {
            Ok(inv) => r matches Ok(out) && toks_view(out@) == emit_invocation(inv),
            Err(e) => r == Err::<Vec<Token>, CompileError>(e),
        },
{
    let ghost t = toks_view(tokens@);
    let len = tokens.len();
    let has_imports = len > 0 && match &tokens[0] {
        Token::Group(Delimiter::Brace, _) => true,
        _ => false,
    };
    let start: usize = if has_imports {
        1
    } else {
        0
    };
    let ghost rest = if has_imports {
        t.subrange(1, t.len() as int)
    } else {
        t
    };
    assert(rest =~= t.subrange(start as int, len as int));
    if start >= len {
        return Err(CompileError::MalformedInvocation);
    }
    assert(rest[0] == tokens@[start as int].view());
    let conv = match &tokens[start] {
        Token::Group(Delimiter::Bracket, conv) => conv,
        _ => {
            return Err(CompileError::MalformedInvocation);
        },
    };
    assert(rest.subrange(1, rest.len() as int) =~= t.subrange(start + 1, len as int));
    let outs = match compile_targets(conv, &tokens, start + 1, len) {
        Ok(outs) => outs,
        Err(e) => {
            return Err(e);
        },
    };
    let ghost inv = parse_invocation(t)->Ok_0;
    let ghost c = toks_view(conv@);
    let ghost items = inv.items;
    let n = outs.len();
    let mut body: Vec<Token> = Vec::new();
    if n == 1 {
        copy_range(&outs[0], 0, outs[0].len(), &mut body);
        assert(toks_view(body@) =~= emit_item(c, items[0]));
    } else {
        let mut inner: Vec<Token> = Vec::new();
        let mut i: usize = 0;
        assert(items.subrange(0, n as int) =~= items);
        assert(toks_view(inner@) + join_items(c, items) =~= join_items(c, items));
        while i < n
            invariant
                n == outs.len(),
                n == items.len(),
                n != 1,
                i <= n,
                forall|k: int|
                    0 <= k < items.len() ==> #[trigger] toks_view(outs@[k]@) == emit_item(
                        c,
                        items[k],
                    ),
                i < n ==> join_items(c, items) == toks_view(inner@) + join_items(
                    c,
                    items.subrange(i as int, n as int),
                ),
                i == n ==> join_items(c, items) == toks_view(inner@),
            decreases n - i,
        {
            let ghost sub = items.subrange(i as int, n as int);
            let ghost before = toks_view(inner@);
            copy_range(&outs[i], 0, outs[i].len(), &mut inner);
            assert(toks_view(outs@[i as int]@).subrange(0, outs@[i as int].len() as int)
                =~= emit_item(c, items[i as int]));
            assert(sub[0] == items[i as int]);
            if n - i > 1 {
                push_token(&mut inner, punct_token(','));
                assert(sub.subrange(1, sub.len() as int) =~= items.subrange(i + 1, n as int));
                assert(toks_view(inner@) =~= before + emit_item(c, items[i as int]).push(punct(',')));
            }
            i = i + 1;
        }
        proof {
            if n == 0 {
                assert(join_items(c, items) == Seq::<Tok>::empty());
            }
        }
        push_token(&mut body, Token::Group(Delimiter::Parenthesis, inner));
        assert(toks_view(body@) =~= seq![Tok::Group(Delimiter::Parenthesis, join_items(c, items))]);
    }
    if has_imports {
        let mut block: Vec<Token> = Vec::new();
        match &tokens[0] {
            Token::Group(_, imports) => {
                copy_range(imports, 0, imports.len(), &mut block);
                assert(toks_view(imports@).subrange(0, imports.len() as int) =~= toks_view(
                    imports@,
                ));
            },
            _ => {},
        }
        copy_range(&body, 0, body.len(), &mut block);
        assert(toks_view(body@).subrange(0, body.len() as int) =~= toks_view(body@));
        let mut out: Vec<Token> = Vec::new();
        push_token(&mut out, Token::Group(Delimiter::Brace, block));
        assert(toks_view(out@) =~= emit_invocation(inv));
        Ok(out)
    } else {
        assert(toks_view(body@) =~= emit_invocation(inv));
        Ok(body)
    }
}

} // verus!
