//! Tokens of a macro invocation, as plain values.
use vstd::prelude::*;

verus! {

/// The three kinds of brackets that group tokens.
#[derive(Clone, Copy, Debug, PartialEq, Eq, Structural)]
pub enum Delim {
    Paren,
    Bracket,
    Brace,
}

/// One token of the input: bracket groups are flattened into an opening
/// and a closing token.
#[derive(Debug)]
pub enum Token {
    Ident(String),
    Punct(char),
    Literal(String),
    Open(Delim),
    Close(Delim),
}

/// The mathematical value of a token.
pub enum Tok {
    Ident(Seq<char>),
    Punct(char),
    Literal(Seq<char>),
    Open(Delim),
    Close(Delim),
}

impl View for Token {
    type V = Tok;

    open spec fn view(&self) -> Tok {
        match self {
            Token::Ident(s) => Tok::Ident(s@),
            Token::Punct(c) => Tok::Punct(*c),
            Token::Literal(s) => Tok::Literal(s@),
            Token::Open(d) => Tok::Open(*d),
            Token::Close(d) => Tok::Close(*d),
        }
    }
}

/// The values of a sequence of tokens.
pub open spec fn toks(s: Seq<Token>) -> Seq<Tok> {
    s.map_values(|t: Token| t@)
}

impl Token {
    /// A copy of this token.
    pub fn copy(&self) -> (r: Token)
        ensures
            r@ == self@,
    {
        match self {
            Token::Ident(s) => Token::Ident(s.clone()),
            Token::Punct(c) => Token::Punct(*c),
            Token::Literal(s) => Token::Literal(s.clone()),
            Token::Open(d) => Token::Open(*d),
            Token::Close(d) => Token::Close(*d),
        }
    }

    /// Whether this token is the identifier `word`.
    pub fn is_ident(&self, word: &str) -> (r: bool)
        ensures
            r == (self@ == Tok::Ident(word@)),
    {
        match self {
            Token::Ident(s) => {
                let w = String::from_str(word);
                let b = *s == w;
                b
            },
            _ => false,
        }
    }
}

/// A copy of the tokens `v[lo..hi]`.
pub fn copy_range(v: &Vec<Token>, lo: usize, hi: usize) -> (r: Vec<Token>)
    requires
        lo <= hi <= v@.len(),
    ensures
        toks(r@) == toks(v@).subrange(lo as int, hi as int),
{
    let mut r: Vec<Token> = Vec::new();
    let mut i: usize = lo;
    while i < hi
        invariant
            lo <= i <= hi <= v@.len(),
            toks(r@) == toks(v@).subrange(lo as int, i as int),
        decreases hi - i,
    {
        let t = v[i].copy();
        let ghost before = r@;
        r.push(t);
        assert(r@ == before.push(t));
        assert(toks(r@) =~= toks(before).push(v@[i as int]@));
        assert(toks(r@) =~= toks(v@).subrange(lo as int, i + 1));
        i = i + 1;
    }
    r
}

/// A copy of a whole token list.
pub fn copy_tokens(v: &Vec<Token>) -> (r: Vec<Token>)
    ensures
        toks(r@) == toks(v@),
{
    let r = copy_range(v, 0, v.len());
    assert(toks(v@).subrange(0, v@.len() as int) =~= toks(v@));
    r
}

} // verus!
