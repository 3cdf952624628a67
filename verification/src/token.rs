//! Tokens of the two source languages: rasm (assembly) and rin.

use vstd::prelude::*;

pub mod asm_token;
pub mod rin_token;

verus! {

/// What the shared lexer and parser need of a token type: making string and
/// number tokens, comparing and copying tokens.
pub trait Token: Sized + View {
    /// The token of a string literal with text `text`.
    spec fn string_view(text: Seq<char>) -> Self::V;

    /// The token of a number literal with value `num`.
    spec fn number_view(num: u64) -> Self::V;

    fn from_string(string: String) -> (r: Self)
        ensures
            r@ == Self::string_view(string@),
    ;

    fn from_u64(num: u64) -> (r: Self)
        ensures
            r@ == Self::number_view(num),
    ;

    /// Whether two tokens are the same.
    fn same_token(&self, other: &Self) -> (r: bool)
        ensures
            r == (self@ == other@),
    ;

    /// A copy of the token.
    fn copy_token(&self) -> (r: Self)
        ensures
            r@ == self@,
    ;
}

} // verus!
