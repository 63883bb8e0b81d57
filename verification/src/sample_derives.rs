//! The derive entry points of the sample procedural-macro packages on which
//! the tool is exercised (packages that a run must skip). Each derive expands
//! to nothing.
use vstd::prelude::*;
use crate::text::texts;

verus! {

/// A stream of tokens, each held as its source text.
#[derive(Clone, Debug, PartialEq, Eq)]
pub struct TokenStream {
    tokens: Vec<String>,
}

impl View for TokenStream {
    type V = Seq<Seq<char>>;

    closed spec fn view(&self) -> Seq<Seq<char>> {
        texts(self.tokens@)
    }
}

impl TokenStream {
    /// The empty stream.
    pub fn new() -> (r: TokenStream)
        ensures
            r@ == Seq::<Seq<char>>::empty(),
    {
        let r = TokenStream { tokens: Vec::new() };
        assert(r@ =~= Seq::<Seq<char>>::empty());
        r
    }

    /// The stream of these tokens.
    pub fn from_tokens(tokens: Vec<String>) -> (r: TokenStream)
        ensures
            r@ == texts(tokens@),
    {
        TokenStream { tokens }
    }

    /// Whether the stream holds no token.
    pub fn is_empty(&self) -> (r: bool)
        ensures
            r == (self@.len() == 0),
    {
        self.tokens.len() == 0
    }
}

/// The `MixedDerive` derive of the mixed workspace's proc-macro package:
/// whatever item it is applied to, it adds nothing.
pub fn mixed_derive(_input: TokenStream) -> (r: TokenStream)
    ensures
        r@ == Seq::<Seq<char>>::empty(),
{
    TokenStream::new()
}

/// The `TestDerive` derive of the standalone proc-macro package: whatever
/// item it is applied to, it adds nothing.
pub fn test_derive(_input: TokenStream) -> (r: TokenStream)
    ensures
        r@ == Seq::<Seq<char>>::empty(),
{
    TokenStream::new()
}

} // verus!
