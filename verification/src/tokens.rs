//! The reserved words of the language's surface syntax.
use vstd::prelude::*;

verus! {

/// Whether a character sequence is one of the language's reserved words.
pub open spec fn is_keyword_s(s: Seq<char>) -> bool {
    ||| s == "and"@
    ||| s == "or"@
    ||| s == "xor"@
    ||| s == "not"@
    ||| s == "true"@
    ||| s == "false"@
    ||| s == "if"@
    ||| s == "then"@
    ||| s == "else"@
    ||| s == "let"@
    ||| s == "in"@
    ||| s == "fn"@
    ||| s == "match"@
    ||| s == "to"@
    ||| s == "delay"@
}

/// Whether a lexeme is a reserved word, and so cannot be an identifier.
pub fn is_keyword(lexeme: &str) -> (r: bool)
    ensures
        r == is_keyword_s(lexeme@),
{
    let s = lexeme.to_owned();
    let r = s.eq(&"and".to_owned()) || s.eq(&"or".to_owned()) || s.eq(&"xor".to_owned())
        || s.eq(&"not".to_owned()) || s.eq(&"true".to_owned()) || s.eq(&"false".to_owned())
        || s.eq(&"if".to_owned()) || s.eq(&"then".to_owned()) || s.eq(&"else".to_owned())
        || s.eq(&"let".to_owned()) || s.eq(&"in".to_owned()) || s.eq(&"fn".to_owned())
        || s.eq(&"match".to_owned()) || s.eq(&"to".to_owned()) || s.eq(&"delay".to_owned());
    r
}

} // verus!
