//! Compiling values, field lists and positional lists: from tokens to the
//! tokens of their emitted form.
use vstd::prelude::*;

use crate::emit::{
    assignments, default_trailer, emit_list, emit_target, emit_value, kept, overridden, punct,
    render,
};
use crate::error::CompileError;
use crate::output::{copy_range, push_conv_call, push_default_trailer, push_token, punct_token};
use crate::path::is_type_path_range;
use crate::split::{is_punct_token, lemma_scan_bounds, scan_run};
use crate::syntax::{
    array_effect, effect_name, parse_fields, parse_list, parse_value, Body, Field, Target,
    ValueExpr,
};
use crate::token::{
    copy_token, lemma_toks_view_index, lemma_toks_view_len, toks_view, Delimiter, Tok, Token,
};

verus! {

broadcast use {lemma_toks_view_len, lemma_toks_view_index};

/// The model of a list of compiled field assignments.
pub open spec fn asg_view(a: Seq<(String, Vec<Token>)>) -> Seq<(Seq<char>, Seq<Tok>)> {
    Seq::new(a.len(), |i: int| (a[i].0@, toks_view(a[i].1@)))
}

/// Resolves the name an effect is called by.
fn resolve_effect(name: &String) -> (r: String)
    ensures
        r@ == effect_name(name@),
{
    let alias = "box".to_owned();
    if *name == alias {
        "boxed".to_owned()
    } else {
        name.clone()
    }
}

/// Whether the effect is the one that collects an array literal.
fn is_array_effect(name: &String) -> (r: bool)
    ensures
        r == (name@ == array_effect()),
{
    let arr = "arr".to_owned();
    *name == arr
}

/// Compiles the value `toks[lo..hi]`, appending the result to `out`.
pub fn compile_value(
    conv: &Vec<Token>,
    toks: &Vec<Token>,
    lo: usize,
    hi: usize,
    out: &mut Vec<Token>,
) -> (r: Result<(), CompileError>)
    requires
        lo <= hi <= toks.len(),
    ensures
        match parse_value(toks_view(toks@).subrange(lo as int, hi as int)) {
            Ok(v) => r is Ok && toks_view(final(out)@) == toks_view(old(out)@) + emit_value(
                toks_view(conv@),
                v,
            ),
            Err(e) => r == Err::<(), CompileError>(e),
        },
    decreases toks, hi - lo, 0nat,
{
    let ghost s = toks_view(toks@).subrange(lo as int, hi as int);
    let ghost c = toks_view(conv@);
    if lo == hi {
        return Err(CompileError::MalformedField);
    }
    let n = hi - lo;
    assert(s[n - 1] == toks@[hi - 1].view());
    assert(s[0] == toks@[lo as int].view());
    assert(s.subrange(0, n - 1) =~= toks_view(toks@).subrange(lo as int, hi - 1));
    if n > 1 {
        if let Token::Group(Delimiter::Brace, inner) = &toks[hi - 1] {
            if is_type_path_range(toks, lo, hi - 1) {
                proof {
                    assert(decreases_to!(*toks => toks@[hi - 1]));
                    assert(decreases_to!(toks@[hi - 1] => (toks@[hi - 1])->Group_1));
                    assert(toks_view(inner@).subrange(0, inner.len() as int) =~= toks_view(inner@));
                }
                let fields = compile_fields(conv, inner, 0, inner.len());
                match fields {
                    Ok(asg) => {
                        let ghost fs = parse_fields(toks_view(inner@))->Ok_0;
                        let mut body: Vec<Token> = Vec::new();
                        render_kept(&asg, &mut body);
                        push_default_trailer(&mut body);
                        assert(toks_view(body@) =~= render(kept(assignments(c, fs)))
                            + default_trailer());
                        let mut arg: Vec<Token> = Vec::new();
                        copy_range(toks, lo, hi - 1, &mut arg);
                        assert(s.subrange(0, n - 1) =~= toks_view(toks@).subrange(
                            lo as int,
                            hi - 1,
                        ));
                        let ghost path = s.subrange(0, n - 1);
                        push_token(&mut arg, Token::Group(Delimiter::Brace, body));
                        assert(toks_view(arg@) =~= emit_target(
                            c,
                            Target { path, body: Body::Fields(fs) },
                        ));
                        push_conv_call(conv, arg, out);
                        return Ok(());
                    },
                    Err(e) => {
                        return Err(e);
                    },
                }
            }
        }
    }
    if n == 1 {
        if let Token::Group(Delimiter::Brace, _) = &toks[lo] {
            push_token(out, copy_token(&toks[lo]));
            return Ok(());
        }
    }
    if is_punct_token(&toks[lo], '@') {
        if n >= 2 {
            assert(s[1] == toks@[lo + 1].view());
            if let Token::Ident(raw) = &toks[lo + 1] {
                let name = resolve_effect(raw);
                if n == 3 && is_array_effect(&name) {
                    assert(s[2] == toks@[lo + 2].view());
                    if let Token::Group(Delimiter::Bracket, inner) = &toks[lo + 2] {
                        proof {
                            assert(decreases_to!(*toks => toks@[lo + 2]));
                            assert(decreases_to!(toks@[lo + 2] => (toks@[lo + 2])->Group_1));
                            assert(toks_view(inner@).subrange(0, inner.len() as int) =~= toks_view(
                                inner@,
                            ));
                        }
                        let mut elems: Vec<Token> = Vec::new();
                        match compile_list(conv, inner, 0, inner.len(), &mut elems) {
                            Ok(()) => {},
                            Err(e) => {
                                return Err(e);
                            },
                        }
                        let ghost vs = parse_list(toks_view(inner@))->Ok_0;
                        assert(toks_view(elems@) =~= emit_list(c, vs));
                        let mut arr: Vec<Token> = Vec::new();
                        push_token(&mut arr, Token::Group(Delimiter::Bracket, elems));
                        assert(toks_view(arr@) =~= seq![
                            Tok::Group(Delimiter::Bracket, emit_list(c, vs)),
                        ]);
                        let mut arg: Vec<Token> = Vec::new();
                        push_conv_call(conv, arr, &mut arg);
                        assert(toks_view(arg@) =~= emit_value(c, ValueExpr::ArrayCollect(vs)));
                        assert(parse_value(s) == Ok::<ValueExpr, CompileError>(
                            ValueExpr::Effect(name@, Box::new(ValueExpr::ArrayCollect(vs))),
                        ));
                        push_token(out, Token::Ident(name));
                        push_token(out, Token::Group(Delimiter::Parenthesis, arg));
                        assert(toks_view(out@) =~= toks_view(old(out)@) + emit_value(
                            c,
                            parse_value(s)->Ok_0,
                        ));
                        return Ok(());
                    }
                }
                let mut arg: Vec<Token> = Vec::new();
                match compile_value(conv, toks, lo + 2, hi, &mut arg) {
                    Ok(()) => {},
                    Err(e) => {
                        assert(s.subrange(2, n as int) =~= toks_view(toks@).subrange(
                            lo + 2,
                            hi as int,
                        ));
                        return Err(e);
                    },
                }
                assert(s.subrange(2, n as int) =~= toks_view(toks@).subrange(lo + 2, hi as int));
                push_token(out, Token::Ident(name));
                push_token(out, Token::Group(Delimiter::Parenthesis, arg));
                assert(toks_view(arg@) =~= Seq::empty() + toks_view(arg@));
                assert(toks_view(out@) =~= toks_view(old(out)@) + emit_value(
                    c,
                    parse_value(s)->Ok_0,
                ));
                return Ok(());
            }
        }
        return Err(CompileError::MalformedEffect);
    }
    let mut arg: Vec<Token> = Vec::new();
    copy_range(toks, lo, hi, &mut arg);
    assert(toks_view(arg@) =~= s);
    assert(parse_value(s) == Ok::<ValueExpr, CompileError>(ValueExpr::Plain(s)));
    push_conv_call(conv, arg, out);
    Ok(())
}

/// Compiles the field list `toks[lo..hi]` into its assignments, in order.
pub fn compile_fields(conv: &Vec<Token>, toks: &Vec<Token>, lo: usize, hi: usize) -> (r: Result<
    Vec<(String, Vec<Token>)>,
    CompileError,
>)
    requires
        lo <= hi <= toks.len(),
    ensures
        match parse_fields(toks_view(toks@).subrange(lo as int, hi as int)) {
            Ok(fs) => r matches Ok(a) && asg_view(a@) == assignments(toks_view(conv@), fs),
            Err(e) => r == Err::<Vec<(String, Vec<Token>)>, CompileError>(e),
        },
    decreases toks, hi - lo, 1nat,
{
    let ghost whole = toks_view(toks@).subrange(lo as int, hi as int);
    let ghost c = toks_view(conv@);
    let mut acc: Vec<(String, Vec<Token>)> = Vec::new();
    if lo == hi {
        assert(asg_view(acc@) =~= assignments(c, Seq::empty()));
        return Ok(acc);
    }
    let mut pos: usize = lo;
    assert(whole =~= toks_view(toks@).subrange(pos as int, hi as int));
    assert(asg_view(acc@) =~= Seq::empty());
    loop
        invariant
            lo <= pos < hi <= toks.len(),
            whole == toks_view(toks@).subrange(lo as int, hi as int),
            c == toks_view(conv@),
            match parse_fields(toks_view(toks@).subrange(pos as int, hi as int)) {
                Ok(rest) => parse_fields(whole) matches Ok(all) && assignments(c, all) == asg_view(
                    acc@,
                ) + assignments(c, rest),
                Err(e) => parse_fields(whole) == Err::<Seq<Field>, CompileError>(e),
            },
        decreases hi - pos,
    {
        let ghost sp = toks_view(toks@).subrange(pos as int, hi as int);
        proof {
            lemma_scan_bounds(sp, 0, 0, false);
        }
        let (j, _) = match scan_run(toks, pos, hi, false) {
            Ok(x) => x,
            Err(e) => {
                return Err(e);
            },
        };
        assert(sp[0] == toks@[pos as int].view());
        if j - pos < 3 {
            return Err(CompileError::MalformedField);
        }
        assert(sp[1] == toks@[pos + 1].view());
        let name = match &toks[pos] {
            Token::Ident(name) => name.clone(),
            _ => {
                return Err(CompileError::MalformedField);
            },
        };
        if !is_punct_token(&toks[pos + 1], ':') {
            return Err(CompileError::MalformedField);
        }
        let mut val: Vec<Token> = Vec::new();
        assert(sp.subrange(2, j - pos) =~= toks_view(toks@).subrange(pos + 2, j as int));
        match compile_value(conv, toks, pos + 2, j, &mut val) {
            Ok(()) => {},
            Err(e) => {
                return Err(e);
            },
        }
        let ghost v = parse_value(sp.subrange(2, j - pos))->Ok_0;
        let ghost f = Field { name: name@, value: v };
        assert(toks_view(val@) =~= emit_value(c, v));
        let ghost before = asg_view(acc@);
        acc.push((name, val));
        assert(asg_view(acc@) =~= before.push((f.name, emit_value(c, f.value))));
        assert(assignments(c, seq![f]) =~= seq![(f.name, emit_value(c, f.value))]) by {
            assert(seq![f].subrange(1, 1) =~= Seq::<Field>::empty());
            assert(assignments(c, Seq::<Field>::empty()) == Seq::<(Seq<char>, Seq<Tok>)>::empty());
        }
        if hi - j <= 1 {
            return Ok(acc);
        }
        proof {
            let rest_toks = sp.subrange(j - pos + 1, sp.len() as int);
            assert(rest_toks =~= toks_view(toks@).subrange(j + 1, hi as int));
            if let Ok(rest) = parse_fields(rest_toks) {
                assert((seq![f] + rest).subrange(1, (seq![f] + rest).len() as int) =~= rest);
                assert((seq![f] + rest)[0] == f);
            }
        }
        pos = j + 1;
    }
}

/// Compiles the list `toks[lo..hi]`, appending `v1, v2, ...,` to `out`.
pub fn compile_list(
    conv: &Vec<Token>,
    toks: &Vec<Token>,
    lo: usize,
    hi: usize,
    out: &mut Vec<Token>,
) -> (r: Result<(), CompileError>)
    requires
        lo <= hi <= toks.len(),
    ensures
        match parse_list(toks_view(toks@).subrange(lo as int, hi as int)) {
            Ok(vs) => r is Ok && toks_view(final(out)@) == toks_view(old(out)@) + emit_list(
                toks_view(conv@),
                vs,
            ),
            Err(e) => r == Err::<(), CompileError>(e),
        },
    decreases toks, hi - lo, 1nat,
{
    let ghost whole = toks_view(toks@).subrange(lo as int, hi as int);
    let ghost c = toks_view(conv@);
    let ghost start = toks_view(out@);
    if lo == hi {
        assert(start + emit_list(c, Seq::empty()) =~= start);
        return Ok(());
    }
    let mut pos: usize = lo;
    assert(whole =~= toks_view(toks@).subrange(pos as int, hi as int));
    loop
        invariant
            lo <= pos < hi <= toks.len(),
            whole == toks_view(toks@).subrange(lo as int, hi as int),
            c == toks_view(conv@),
            start == toks_view(old(out)@),
            match parse_list(toks_view(toks@).subrange(pos as int, hi as int)) {
                Ok(rest) => parse_list(whole) matches Ok(all) && start + emit_list(c, all)
                    == toks_view(out@) + emit_list(c, rest),
                Err(e) => parse_list(whole) == Err::<Seq<crate::syntax::ValueExpr>, CompileError>(
                    e,
                ),
            },
        decreases hi - pos,
    {
        let ghost sp = toks_view(toks@).subrange(pos as int, hi as int);
        let ghost before = toks_view(out@);
        proof {
            lemma_scan_bounds(sp, 0, 0, false);
        }
        let (j, _) = match scan_run(toks, pos, hi, false) {
            Ok(x) => x,
            Err(e) => {
                return Err(e);
            },
        };
        assert(sp.subrange(0, j - pos) =~= toks_view(toks@).subrange(pos as int, j as int));
        assert(sp.subrange(0, sp.len() as int) =~= sp);
        match compile_value(conv, toks, pos, j, out) {
            Ok(()) => {},
            Err(e) => {
                return Err(e);
            },
        }
        let ghost v = parse_value(sp.subrange(0, j - pos))->Ok_0;
        push_token(out, punct_token(','));
        assert(toks_view(out@) =~= before + emit_value(c, v).push(punct(',')));
        assert(emit_list(c, seq![v]) =~= emit_value(c, v).push(punct(','))) by {
            assert(seq![v].subrange(1, 1) =~= Seq::<crate::syntax::ValueExpr>::empty());
            assert(emit_list(c, Seq::<crate::syntax::ValueExpr>::empty()) == Seq::<Tok>::empty());
        }
        if hi - j <= 1 {
            assert(toks_view(out@) + emit_list(c, Seq::empty()) =~= toks_view(out@));
            return Ok(());
        }
        proof {
            let rest_toks = sp.subrange(j - pos + 1, sp.len() as int);
            assert(rest_toks =~= toks_view(toks@).subrange(j + 1, hi as int));
            if let Ok(rest) = parse_list(rest_toks) {
                assert((seq![v] + rest).subrange(1, (seq![v] + rest).len() as int) =~= rest);
                assert((seq![v] + rest)[0] == v);
            }
        }
        pos = j + 1;
    }
}

/// Appends `name: value,` for every assignment that no later one overrides.
pub fn render_kept(asg: &Vec<(String, Vec<Token>)>, out: &mut Vec<Token>)
    ensures
        toks_view(final(out)@) == toks_view(old(out)@) + render(kept(asg_view(asg@))),
{
    let ghost a = asg_view(asg@);
    let ghost start = toks_view(out@);
    let n = asg.len();
    let mut i: usize = 0;
    assert(a.subrange(0, n as int) =~= a);
    while i < n
        invariant
            n == asg.len(),
            i <= n,
            a == asg_view(asg@),
            start == toks_view(old(out)@),
            start + render(kept(a)) == toks_view(out@) + render(kept(a.subrange(i as int, n as int))),
        decreases n - i,
    {
        let ghost rest = a.subrange(i + 1, n as int);
        assert(a.subrange(i as int, n as int).subrange(1, n - i) =~= rest);
        let mut later = false;
        let mut k: usize = i + 1;
        while k < n
            invariant
                n == asg.len(),
                i < k <= n,
                a == asg_view(asg@),
                rest == a.subrange(i + 1, n as int),
                later <==> exists|m: int| i + 1 <= m < k && #[trigger] a[m].0 == a[i as int].0,
            decreases n - k,
        {
            assert(a[k as int].0 == asg@[k as int].0@);
            assert(a[i as int].0 == asg@[i as int].0@);
            if asg[k].0 == asg[i].0 {
                later = true;
            }
            k = k + 1;
        }
        assert(later == overridden(a[i as int].0, rest)) by {
            if later {
                let m = choose|m: int| i + 1 <= m < n && #[trigger] a[m].0 == a[i as int].0;
                assert(rest[m - i - 1].0 == a[i as int].0);
            }
            if overridden(a[i as int].0, rest) {
                let m = choose|m: int| 0 <= m < rest.len() && #[trigger] rest[m].0 == a[i as int].0;
                assert(a[m + i + 1].0 == a[i as int].0);
            }
        }
        if !later {
            let ghost before = toks_view(out@);
            push_token(out, Token::Ident(asg[i].0.clone()));
            push_token(out, punct_token(':'));
            copy_range(&asg[i].1, 0, asg[i].1.len(), out);
            push_token(out, punct_token(','));
            proof {
                let piece = seq![a[i as int]] + kept(rest);
                assert(piece[0] == a[i as int]);
                assert(piece.subrange(1, piece.len() as int) =~= kept(rest));
                assert(toks_view(asg@[i as int].1@).subrange(0, asg@[i as int].1.len() as int)
                    =~= a[i as int].1);
                assert(toks_view(out@) =~= before + (seq![Tok::Ident(a[i as int].0), punct(':')]
                    + a[i as int].1.push(punct(','))));
            }
        }
        i = i + 1;
    }
    assert(toks_view(out@) + render(kept(a.subrange(n as int, n as int))) =~= toks_view(out@));
}

/// Appends the body of a field-bodied construction:
/// `{ name: value, ..., ..::core::default::Default::default() }`.
pub fn push_fields_body(
    conv: &Vec<Token>,
    inner: &Vec<Token>,
    out: &mut Vec<Token>,
) -> (r: Result<(), CompileError>)
    ensures
        match parse_fields(toks_view(inner@)) {
            Ok(fs) => r is Ok && toks_view(final(out)@) == toks_view(old(out)@).push(
                Tok::Group(
                    Delimiter::Brace,
                    render(kept(assignments(toks_view(conv@), fs))) + default_trailer(),
                ),
            ),
            Err(e) => r == Err::<(), CompileError>(e),
        },
{
    assert(toks_view(inner@).subrange(0, inner.len() as int) =~= toks_view(inner@));
    match compile_fields(conv, inner, 0, inner.len()) {
        Ok(asg) => {
            let ghost fs = parse_fields(toks_view(inner@))->Ok_0;
            let mut body: Vec<Token> = Vec::new();
            render_kept(&asg, &mut body);
            push_default_trailer(&mut body);
            assert(toks_view(body@) =~= render(kept(assignments(toks_view(conv@), fs)))
                + default_trailer());
            push_token(out, Token::Group(Delimiter::Brace, body));
            Ok(())
        },
        Err(e) => Err(e),
    }
}

} // verus!
