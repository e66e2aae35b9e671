use vstd::prelude::*;

verus! {

/// The bracket pair that encloses a group of tokens.
#[derive(Clone, Copy, Debug, PartialEq, Eq, Structural)]
pub enum Delimiter {
    /// `( ... )`
    Parenthesis,
    /// `{ ... }`
    Brace,
    /// `[ ... ]`
    Bracket,
    /// An invisible group, as produced by macro expansion.
    Invisible,
}

/// Whether a punctuation character is glued to the one that follows it
/// (`:` in `::` is `Joint`, the second `:` is `Alone`).
#[derive(Clone, Copy, Debug, PartialEq, Eq, Structural)]
pub enum Spacing {
    Alone,
    Joint,
}

/// One lexical unit of a macro invocation, or a delimited group of them.
#[derive(Debug)]
pub enum Token {
    Ident(String),
    Punct(char, Spacing),
    Literal(String),
    Group(Delimiter, Vec<Token>),
}

/// The mathematical model of a [`Token`].
pub enum Tok {
    Ident(Seq<char>),
    Punct(char, Spacing),
    Literal(Seq<char>),
    Group(Delimiter, Seq<Tok>),
}

impl Token {
    /// The model of the token.
    pub open spec fn view(self) -> Tok
        decreases self,
    {
        match self {
            Token::Ident(s) => Tok::Ident(s@),
            Token::Punct(c, sp) => Tok::Punct(c, sp),
            Token::Literal(s) => Tok::Literal(s@),
            Token::Group(d, v) => Tok::Group(d, toks_view(v@)),
        }
    }
}

/// The model of a token sequence.
pub open spec fn toks_view(s: Seq<Token>) -> Seq<Tok>
    decreases s,
{
    if s.len() == 0 {
        Seq::empty()
    } else {
        toks_view(s.drop_last()).push(s.last().view())
    }
}

/// The model of a sequence has one token per token.
pub broadcast proof fn lemma_toks_view_len(s: Seq<Token>)
    ensures
        #[trigger] toks_view(s).len() == s.len(),
    decreases s.len(),
{
    if s.len() > 0 {
        lemma_toks_view_len(s.drop_last());
    }
}

/// The model of a sequence is the model of each token.
pub broadcast proof fn lemma_toks_view_index(s: Seq<Token>, i: int)
    requires
        0 <= i < s.len(),
    ensures
        #[trigger] toks_view(s)[i] == s[i].view(),
    decreases s.len(),
{
    lemma_toks_view_len(s.drop_last());
    if i < s.len() - 1 {
        lemma_toks_view_index(s.drop_last(), i);
    }
}

/// Makes an independent copy of a token tree.
pub fn copy_token(t: &Token) -> (r: Token)
    ensures
        r.view() == t.view(),
    decreases t,
{
    match t {
        Token::Ident(s) => Token::Ident(s.clone()),
        Token::Punct(c, sp) => Token::Punct(*c, *sp),
        Token::Literal(s) => Token::Literal(s.clone()),
        Token::Group(d, v) => {
            let mut out: Vec<Token> = Vec::new();
            let mut i: usize = 0;
            while i < v.len()
                invariant
                    *t == Token::Group(*d, *v),
                    i <= v.len(),
                    out@.len() == i,
                    forall|j: int| 0 <= j < i ==> #[trigger] out@[j].view() == v@[j].view(),
                decreases v.len() - i,
            {
                proof {
                    assert(decreases_to!(*t => (*t)->Group_1));
                    assert(decreases_to!(*v => v[i as int]));
                    assert(decreases_to!(*t => v[i as int]));
                }
                let c = copy_token(&v[i]);
                out.push(c);
                i = i + 1;
            }
            proof {
                lemma_toks_view_ext(out@, v@);
            }
            Token::Group(*d, out)
        },
    }
}

/// Sequences whose tokens have equal models have equal models.
pub proof fn lemma_toks_view_ext(a: Seq<Token>, b: Seq<Token>)
    requires
        a.len() == b.len(),
        forall|j: int| 0 <= j < a.len() ==> #[trigger] a[j].view() == b[j].view(),
    ensures
        toks_view(a) == toks_view(b),
{
    broadcast use {lemma_toks_view_len, lemma_toks_view_index};
    assert(toks_view(a) =~= toks_view(b));
}

} // verus!
