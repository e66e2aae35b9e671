//! Building blocks of the emitted token sequences.
use vstd::prelude::*;

use crate::emit::{conv_call, default_trailer, default_trait, path_sep, punct};
use crate::token::{
    copy_token, lemma_toks_view_index, lemma_toks_view_len, toks_view, Delimiter, Spacing, Tok,
    Token,
};

verus! {

broadcast use {lemma_toks_view_len, lemma_toks_view_index};

/// Pushing a token pushes its model.
pub proof fn lemma_toks_view_push(s: Seq<Token>, t: Token)
    ensures
        toks_view(s.push(t)) == toks_view(s).push(t.view()),
{
    assert(s.push(t).drop_last() =~= s);
}

/// The model of a slice is the slice of the model.
pub proof fn lemma_toks_view_subrange(s: Seq<Token>, lo: int, hi: int)
    requires
        0 <= lo <= hi <= s.len(),
    ensures
        toks_view(s.subrange(lo, hi)) == toks_view(s).subrange(lo, hi),
{
    assert(toks_view(s.subrange(lo, hi)) =~= toks_view(s).subrange(lo, hi));
}

/// Appends a token to `out`.
pub fn push_token(out: &mut Vec<Token>, t: Token)
    ensures
        toks_view(final(out)@) == toks_view(old(out)@).push(t.view()),
{
    proof {
        lemma_toks_view_push(old(out)@, t);
    }
    out.push(t);
}

/// Appends copies of `toks[lo..hi]` to `out`.
pub fn copy_range(toks: &Vec<Token>, lo: usize, hi: usize, out: &mut Vec<Token>)
    requires
        lo <= hi <= toks.len(),
    ensures
        toks_view(final(out)@) == toks_view(old(out)@) + toks_view(toks@).subrange(
            lo as int,
            hi as int,
        ),
{
    let mut i: usize = lo;
    while i < hi
        invariant
            lo <= i <= hi <= toks.len(),
            toks_view(out@) == toks_view(old(out)@) + toks_view(toks@).subrange(lo as int, i as int),
        decreases hi - i,
    {
        let t = copy_token(&toks[i]);
        push_token(out, t);
        assert(toks_view(toks@).subrange(lo as int, i + 1) =~= toks_view(toks@).subrange(
            lo as int,
            i as int,
        ).push(toks@[i as int].view()));
        i = i + 1;
    }
}

/// A copy of a whole token sequence.
pub fn copy_tokens(toks: &Vec<Token>) -> (r: Vec<Token>)
    ensures
        toks_view(r@) == toks_view(toks@),
{
    let mut r: Vec<Token> = Vec::new();
    copy_range(toks, 0, toks.len(), &mut r);
    assert(toks_view(r@) =~= toks_view(toks@));
    r
}

/// A lone punctuation character.
pub fn punct_token(c: char) -> (r: Token)
    ensures
        r.view() == punct(c),
{
    Token::Punct(c, Spacing::Alone)
}

/// An identifier.
pub fn ident_token(s: &str) -> (r: Token)
    ensures
        r.view() == Tok::Ident(s@),
{
    Token::Ident(s.to_owned())
}

/// Appends `::` to `out`.
pub fn push_path_sep(out: &mut Vec<Token>)
    ensures
        toks_view(final(out)@) == toks_view(old(out)@) + path_sep(),
{
    push_token(out, Token::Punct(':', Spacing::Joint));
    push_token(out, Token::Punct(':', Spacing::Alone));
    assert(toks_view(out@) =~= toks_view(old(out)@) + path_sep());
}

/// Appends `f(arg)` to `out`, where `f` is the conversion expression.
pub fn push_conv_call(conv: &Vec<Token>, arg: Vec<Token>, out: &mut Vec<Token>)
    ensures
        toks_view(final(out)@) == toks_view(old(out)@) + conv_call(
            toks_view(conv@),
            toks_view(arg@),
        ),
{
    copy_range(conv, 0, conv.len(), out);
    assert(toks_view(conv@).subrange(0, conv.len() as int) =~= toks_view(conv@));
    push_token(out, Token::Group(Delimiter::Parenthesis, arg));
    assert(toks_view(out@) =~= toks_view(old(out)@) + conv_call(toks_view(conv@), toks_view(arg@)));
}

/// Appends `::core::default::Default` to `out`.
pub fn push_default_trait(out: &mut Vec<Token>)
    ensures
        toks_view(final(out)@) == toks_view(old(out)@) + default_trait(),
{
    let ghost start = toks_view(out@);
    push_path_sep(out);
    push_token(out, ident_token("core"));
    push_path_sep(out);
    push_token(out, ident_token("default"));
    push_path_sep(out);
    push_token(out, ident_token("Default"));
    assert(toks_view(out@) =~= start + default_trait());
}

/// Appends `::default()` to `out`.
pub fn push_default_call(out: &mut Vec<Token>)
    ensures
        toks_view(final(out)@) == toks_view(old(out)@) + path_sep() + seq![
            Tok::Ident("default"@),
            Tok::Group(Delimiter::Parenthesis, Seq::empty()),
        ],
{
    let ghost start = toks_view(out@);
    push_path_sep(out);
    push_token(out, ident_token("default"));
    let empty: Vec<Token> = Vec::new();
    proof {
        assert(toks_view(empty@) =~= Seq::empty());
    }
    push_token(out, Token::Group(Delimiter::Parenthesis, empty));
    assert(toks_view(out@) =~= start + path_sep() + seq![
        Tok::Ident("default"@),
        Tok::Group(Delimiter::Parenthesis, Seq::empty()),
    ]);
}

/// Appends `..::core::default::Default::default()` to `out`.
pub fn push_default_trailer(out: &mut Vec<Token>)
    ensures
        toks_view(final(out)@) == toks_view(old(out)@) + default_trailer(),
{
    let ghost start = toks_view(out@);
    push_token(out, Token::Punct('.', Spacing::Joint));
    push_token(out, punct_token('.'));
    push_default_trait(out);
    push_default_call(out);
    assert(toks_view(out@) =~= start + default_trailer());
}

} // verus!
