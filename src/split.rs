use vstd::prelude::*;

use crate::error::CompileError;
use crate::token::{lemma_toks_view_index, lemma_toks_view_len, toks_view, Spacing, Tok, Token};

verus! {

broadcast use {lemma_toks_view_len, lemma_toks_view_index};

/// The token is the punctuation character `c`.
pub open spec fn is_punct(t: Tok, c: char) -> bool {
    t matches Tok::Punct(p, _) && p == c
}

/// The token at `i` is a `<` that opens or deepens a generic-argument list.
///
/// In strict mode every `<` counts. Otherwise only the `<` of a turbofish
/// (`::<`) opens a list, and inside an open list every `<` deepens it.
pub open spec fn opens_generics(toks: Seq<Tok>, i: int, depth: nat, strict: bool) -> bool {
    &&& is_punct(toks[i], '<')
    &&& (strict || depth > 0 || (i >= 2 && is_punct(toks[i - 1], ':') && is_punct(
        toks[i - 2],
        ':',
    )))
}

/// The token at `i` is a `>` that closes a generic-argument list, that is,
/// not the tail of `->` or `=>`.
pub open spec fn closes_generics(toks: Seq<Tok>, i: int) -> bool {
    &&& is_punct(toks[i], '>')
    &&& !(i >= 1 && (toks[i - 1] == Tok::Punct('-', Spacing::Joint) || toks[i - 1] == Tok::Punct(
        '=',
        Spacing::Joint,
    )))
}

/// The angle depth after the token at `i`, given the depth before it.
/// `None` when a closing `>` comes at depth zero in strict mode.
pub open spec fn depth_after(toks: Seq<Tok>, i: int, depth: nat, strict: bool) -> Option<nat> {
    if opens_generics(toks, i, depth, strict) {
        Some(depth + 1)
    } else if closes_generics(toks, i) {
        if depth > 0 {
            Some((depth - 1) as nat)
        } else if strict {
            None
        } else {
            Some(0)
        }
    } else {
        Some(depth)
    }
}

/// Scans from index `i` at angle depth `depth` to the first comma at depth
/// zero. Gives its index (the length of `toks` when there is none) and the
/// depth there.
pub open spec fn scan(toks: Seq<Tok>, i: int, depth: nat, strict: bool) -> Result<
    (int, nat),
    CompileError,
>
    decreases toks.len() - i,
{
    if i < 0 || i >= toks.len() {
        Ok((toks.len() as int, depth))
    } else if depth == 0 && is_punct(toks[i], ',') {
        Ok((i, depth))
    } else {
        match depth_after(toks, i, depth, strict) {
            Some(d) => scan(toks, i + 1, d, strict),
            None => Err(CompileError::UnbalancedGenerics),
        }
    }
}

/// Where the first top-level run of `toks` ends: the index of the first comma
/// outside any group and any generic-argument list, or the length of `toks`.
pub open spec fn next_separator(toks: Seq<Tok>, strict: bool) -> Result<int, CompileError> {
    match scan(toks, 0, 0, strict) {
        Ok((j, _)) => Ok(j),
        Err(e) => Err(e),
    }
}

/// A scan ends within the tokens, and where it ends early it ends at a comma.
pub proof fn lemma_scan_bounds(toks: Seq<Tok>, i: int, depth: nat, strict: bool)
    requires
        0 <= i <= toks.len(),
    ensures
        scan(toks, i, depth, strict) matches Ok((j, _)) ==> i <= j <= toks.len() && (j
            < toks.len() ==> is_punct(toks[j], ',')),
    decreases toks.len() - i,
{
    if i < toks.len() && !(depth == 0 && is_punct(toks[i], ',')) {
        if let Some(d) = depth_after(toks, i, depth, strict) {
            lemma_scan_bounds(toks, i + 1, d, strict);
        }
    }
}

/// Whether the token is the punctuation character `c`.
pub fn is_punct_token(t: &Token, c: char) -> (r: bool)
    ensures
        r == is_punct(t.view(), c),
{
    match t {
        Token::Punct(p, _) => *p == c,
        _ => false,
    }
}

/// Whether the token is `c` glued to the next token.
fn is_joint_punct_token(t: &Token, c: char) -> (r: bool)
    ensures
        r == (t.view() == Tok::Punct(c, Spacing::Joint)),
{
    match t {
        Token::Punct(p, Spacing::Joint) => *p == c,
        _ => false,
    }
}

/// Computes `depth_after` for the token `lo + k` of `toks`, seen within the
/// run `toks[lo..hi]`.
fn step_depth(toks: &Vec<Token>, lo: usize, hi: usize, i: usize, depth: usize, strict: bool) -> (r:
    Option<usize>)
    requires
        lo <= i < hi <= toks.len(),
        depth < usize::MAX,
    ensures
        r matches Some(d) ==> d <= depth + 1,
        depth_after(toks_view(toks@).subrange(lo as int, hi as int), i - lo, depth as nat, strict)
            == (match r {
            Some(d) => Some(d as nat),
            None => None::<nat>,
        }),
{
    let ghost s = toks_view(toks@).subrange(lo as int, hi as int);
    let ghost k = i - lo;
    assert(s[k] == toks@[i as int].view());
    let t = &toks[i];
    if is_punct_token(t, '<') {
        let after_sep = i - lo >= 2 && is_punct_token(&toks[i - 1], ':') && is_punct_token(
            &toks[i - 2],
            ':',
        );
        proof {
            if i >= lo + 2 {
                assert(s[k - 1] == toks@[i - 1].view());
                assert(s[k - 2] == toks@[i - 2].view());
            }
        }
        if strict || depth > 0 || after_sep {
            return Some(depth + 1);
        }
        return Some(depth);
    }
    if is_punct_token(t, '>') {
        let arrow = i - lo >= 1 && (is_joint_punct_token(&toks[i - 1], '-')
            || is_joint_punct_token(&toks[i - 1], '='));
        proof {
            if i >= lo + 1 {
                assert(s[k - 1] == toks@[i - 1].view());
            }
        }
        if !arrow {
            if depth > 0 {
                return Some(depth - 1);
            } else if strict {
                return None;
            } else {
                return Some(0);
            }
        }
    }
    Some(depth)
}

/// Finds the end of the first top-level run of `toks[lo..hi]`: the position
/// of its first comma outside groups and generic-argument lists, or `hi`,
/// together with the angle depth there.
pub fn scan_run(toks: &Vec<Token>, lo: usize, hi: usize, strict: bool) -> (r: Result<
    (usize, usize),
    CompileError,
>)
    requires
        lo <= hi <= toks.len(),
    ensures
        match scan(toks_view(toks@).subrange(lo as int, hi as int), 0, 0, strict) {
            Ok((j, d)) => r matches Ok((rj, rd)) && rj == lo + j && rd == d,
            Err(e) => r == Err::<(usize, usize), CompileError>(e),
        },
{
    let ghost s = toks_view(toks@).subrange(lo as int, hi as int);
    let mut i: usize = lo;
    let mut depth: usize = 0;
    while i < hi
        invariant
            lo <= i <= hi <= toks.len(),
            depth <= i - lo,
            s == toks_view(toks@).subrange(lo as int, hi as int),
            scan(s, 0, 0, strict) == scan(s, i - lo, depth as nat, strict),
        decreases hi - i,
    {
        assert(s[i - lo] == toks@[i as int].view());
        if depth == 0 && is_punct_token(&toks[i], ',') {
            return Ok((i, depth));
        }
        match step_depth(toks, lo, hi, i, depth, strict) {
            Some(d) => {
                depth = d;
            },
            None => {
                return Err(CompileError::UnbalancedGenerics);
            },
        }
        i = i + 1;
    }
    Ok((i, depth))
}

} // verus!
