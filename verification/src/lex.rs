//! The calls into `nom` and into the parts of `std` that have no
//! specification of their own. Each function here makes exactly one such
//! call; its contract is taken on trust from the callee's source or
//! documentation and is what the proofs of the grammars rest on.

use vstd::prelude::*;
use crate::text::{is_whitespace, run_len, trimmed, CharClass};

verus! {

/// `nom::Err`, the failure of a `nom` parser. Nothing is read from it.
#[verifier::external_type_specification]
#[verifier::external_body]
#[verifier::reject_recursive_types(F)]
#[verifier::reject_recursive_types(E)]
pub struct ExNomErr<F, E>(nom::Err<F, E>);

/// `nom::error::Error`, the position and code of a failure. Nothing is read
/// from it.
#[verifier::external_type_specification]
#[verifier::external_body]
#[verifier::reject_recursive_types(I)]
pub struct ExNomError<I>(nom::error::Error<I>);

/// Calls `nom::bytes::complete::tag`. It succeeds exactly when `input` starts
/// with `lit`; it then hands back that prefix as the match and what follows
/// it as the remainder.
#[verifier::external_body]
pub(crate) fn tag<'a>(lit: &str, input: &'a str) -> (r: Result<
    (&'a str, &'a str),
    nom::Err<nom::error::Error<&'a str>>,
>)
    ensures
        r is Ok <==> lit@.is_prefix_of(input@),
        r matches Ok((rest, found)) ==> found@ == lit@ && rest@ == input@.skip(lit@.len() as int),
{
    nom::bytes::complete::tag(lit)(input)
}

/// Calls `nom::character::complete::digit1`. It splits `input` after its
/// leading run of ASCII decimal digits, and fails exactly when that run is
/// empty.
#[verifier::external_body]
pub(crate) fn digit1<'a>(input: &'a str) -> (r: Result<
    (&'a str, &'a str),
    nom::Err<nom::error::Error<&'a str>>,
>)
    ensures
        r is Ok <==> run_len(input@, CharClass::Digit) > 0,
        r matches Ok((rest, digits)) ==> {
            &&& digits@ == input@.take(run_len(input@, CharClass::Digit) as int)
            &&& rest@ == input@.skip(run_len(input@, CharClass::Digit) as int)
        },
{
    nom::character::complete::digit1(input)
}

/// Calls `nom::character::complete::multispace0`. It never fails, and splits
/// `input` after its leading run of spaces, tabs, carriage returns and line
/// feeds.
#[verifier::external_body]
pub(crate) fn multispace0<'a>(input: &'a str) -> (r: Result<
    (&'a str, &'a str),
    nom::Err<nom::error::Error<&'a str>>,
>)
    ensures
        r is Ok,
        r matches Ok((rest, blanks)) ==> {
            &&& blanks@ == input@.take(run_len(input@, CharClass::Blank) as int)
            &&& rest@ == input@.skip(run_len(input@, CharClass::Blank) as int)
        },
{
    nom::character::complete::multispace0(input)
}

/// Calls `nom::character::complete::anychar`. It takes the first character
/// off `input`, and fails exactly when `input` is empty.
#[verifier::external_body]
pub(crate) fn anychar<'a>(input: &'a str) -> (r: Result<
    (&'a str, char),
    nom::Err<nom::error::Error<&'a str>>,
>)
    ensures
        r is Ok <==> input@.len() > 0,
        r matches Ok((rest, c)) ==> c == input@[0] && rest@ == input@.skip(1),
{
    nom::character::complete::anychar(input)
}

/// Calls `nom::combinator::rest`. It never fails: the whole of `input` is
/// the match, and the remainder is empty.
#[verifier::external_body]
pub(crate) fn rest<'a>(input: &'a str) -> (r: Result<
    (&'a str, &'a str),
    nom::Err<nom::error::Error<&'a str>>,
>)
    ensures
        r is Ok,
        r matches Ok((remainder, all)) ==> all@ == input@ && remainder@.len() == 0,
{
    nom::combinator::rest(input)
}

/// Calls `str::trim`, which returns the slice of `s` that is left when
/// leading and trailing characters with the Unicode `White_Space` property
/// are removed: what is left neither starts nor ends with such a character.
#[verifier::external_body]
pub(crate) fn trim<'a>(s: &'a str) -> (r: &'a str)
    ensures
        r@ == trimmed(s@),
        r@.len() > 0 ==> !is_whitespace(r@.first()) && !is_whitespace(r@.last()),
{
    s.trim()
}

/// Calls `String::push`, which appends `c` to the end of `buffer`.
#[verifier::external_body]
pub(crate) fn push_char(buffer: &mut String, c: char)
    ensures
        final(buffer)@ == old(buffer)@.push(c),
{
    buffer.push(c)
}

} // verus!
