//! Recognising type paths: `a::B`, `::a::B`, `B::<'a, T>`.
use vstd::prelude::*;

use crate::split::{is_punct_token, lemma_scan_bounds, scan_run};
use crate::syntax::{generic_args_ok, is_path_from, is_type_path};
use crate::token::{lemma_toks_view_index, lemma_toks_view_len, toks_view, Token};

verus! {

broadcast use {lemma_toks_view_len, lemma_toks_view_index};

/// Whether the token is an identifier.
pub fn is_ident_token(t: &Token) -> (r: bool)
    ensures
        r == (t.view() is Ident),
{
    match t {
        Token::Ident(_) => true,
        _ => false,
    }
}

/// Whether `toks[lo..hi]` is a list of generic arguments.
pub fn generic_args_ok_range(toks: &Vec<Token>, lo: usize, hi: usize) -> (r: bool)
    requires
        lo <= hi <= toks.len(),
    ensures
        r == generic_args_ok(toks_view(toks@).subrange(lo as int, hi as int)),
    decreases hi - lo,
{
    let ghost s = toks_view(toks@).subrange(lo as int, hi as int);
    proof {
        lemma_scan_bounds(s, 0, 0, true);
    }
    match scan_run(toks, lo, hi, true) {
        Ok((j, d)) => {
            if j > lo && d == 0 {
                if hi - j <= 1 {
                    true
                } else {
                    assert(s.subrange(j + 1 - lo, s.len() as int) =~= toks_view(toks@).subrange(
                        j + 1,
                        hi as int,
                    ));
                    generic_args_ok_range(toks, j + 1, hi)
                }
            } else {
                false
            }
        },
        Err(_) => false,
    }
}

/// Whether `toks[i..hi]` continues a type path that `toks[lo..hi]` holds.
pub fn is_path_from_range(toks: &Vec<Token>, lo: usize, hi: usize, i: usize) -> (r: bool)
    requires
        lo <= i <= hi <= toks.len(),
    ensures
        r == is_path_from(toks_view(toks@).subrange(lo as int, hi as int), i - lo),
    decreases hi - i,
{
    let ghost s = toks_view(toks@).subrange(lo as int, hi as int);
    let ghost k = i - lo;
    if i >= hi {
        return false;
    }
    assert(s[k] == toks@[i as int].view());
    if !is_ident_token(&toks[i]) {
        return false;
    }
    if hi - i == 1 {
        return true;
    }
    if hi - i > 3 && is_punct_token(&toks[i + 1], ':') && is_punct_token(&toks[i + 2], ':') {
        assert(s[k + 1] == toks@[i + 1].view());
        assert(s[k + 2] == toks@[i + 2].view());
        assert(s[k + 3] == toks@[i + 3].view());
        if is_punct_token(&toks[i + 3], '<') {
            assert(s[s.len() - 1] == toks@[hi - 1].view());
            if hi - i >= 5 && is_punct_token(&toks[hi - 1], '>') {
                assert(s.subrange(k + 4, s.len() - 1) =~= toks_view(toks@).subrange(
                    i + 4,
                    hi - 1,
                ));
                return generic_args_ok_range(toks, i + 4, hi - 1);
            }
            return false;
        } else {
            return is_path_from_range(toks, lo, hi, i + 3);
        }
    }
    proof {
        if hi - i > 3 {
            assert(s[k + 1] == toks@[i + 1].view());
            assert(s[k + 2] == toks@[i + 2].view());
        }
    }
    false
}

/// Whether `toks[lo..hi]` is a type path.
pub fn is_type_path_range(toks: &Vec<Token>, lo: usize, hi: usize) -> (r: bool)
    requires
        lo <= hi <= toks.len(),
    ensures
        r == is_type_path(toks_view(toks@).subrange(lo as int, hi as int)),
{
    let ghost s = toks_view(toks@).subrange(lo as int, hi as int);
    if hi - lo >= 2 && is_punct_token(&toks[lo], ':') && is_punct_token(&toks[lo + 1], ':') {
        assert(s[0] == toks@[lo as int].view());
        assert(s[1] == toks@[lo + 1].view());
        is_path_from_range(toks, lo, hi, lo + 2)
    } else {
        proof {
            if hi - lo >= 2 {
                assert(s[0] == toks@[lo as int].view());
                assert(s[1] == toks@[lo + 1].view());
            }
        }
        is_path_from_range(toks, lo, hi, lo)
    }
}

} // verus!
