//! Checks on command arguments: a number of rounds, a hint length, a
//! language, and a command prefix.
use vstd::prelude::*;
use vstd::string::*;

verus! {

/// Whether `c` is an ASCII decimal digit.
pub open spec fn is_digit(c: char) -> bool {
    '0' <= c && c <= '9'
}

/// The value of a string of decimal digits.
pub open spec fn digits_value(s: Seq<char>) -> nat
    decreases s.len(),
{
    if s.len() == 0 {
        0
    } else {
        digits_value(s.drop_last()) * 10 + ((s.last() as u32) - ('0' as u32)) as nat
    }
}

/// The number that a text writes in decimal: an optional `+`, then one or
/// more ASCII digits.
pub open spec fn decimal_value(s: Seq<char>) -> Option<nat> {
    let d = if s.len() > 0 && s[0] == '+' {
        s.drop_first()
    } else {
        s
    };
    if d.len() > 0 && forall|i: int| 0 <= i < d.len() ==> #[trigger] is_digit(d[i]) {
        Some(digits_value(d))
    } else {
        None
    }
}

/// Relies on `str::parse::<u32>`: an optional `+` and decimal digits whose
/// value fits in a `u32`; anything else is an error.
#[verifier::external_body]
fn parse_u32(s: &str) -> (r: Option<u32>)
    ensures
        r == match decimal_value(s@) {
            Some(v) => if v <= u32::MAX {
                Some(v as u32)
            } else {
                None::<u32>
            },
            None => None::<u32>,
        },
{
    s.parse::<u32>().ok()
}

/// Relies on `str::parse::<usize>`: an optional `+` and decimal digits whose
/// value fits in a `usize`; anything else is an error.
#[verifier::external_body]
fn parse_usize(s: &str) -> (r: Option<usize>)
    ensures
        r == match decimal_value(s@) {
            Some(v) => if v <= usize::MAX {
                Some(v as usize)
            } else {
                None::<usize>
            },
            None => None::<usize>,
        },
{
    s.parse::<usize>().ok()
}

/// Whether a text is a valid regular expression.
pub uninterp spec fn regex_compiles(pattern: Seq<char>) -> bool;

/// Whether a regular expression matches somewhere in a text.
pub uninterp spec fn regex_matches(pattern: Seq<char>, text: Seq<char>) -> bool;

/// Relies on regex's `Regex::new` and `Regex::is_match`: `None` when the
/// pattern does not compile (which depends on the pattern alone), else
/// whether it matches somewhere in the text.
#[verifier::external_body]
fn regex_is_match(pattern: &str, text: &str) -> (r: Option<bool>)
    ensures
        r is Some <==> regex_compiles(pattern@),
        r is Some ==> r->0 == regex_matches(pattern@, text@),
{
    match regex::Regex::new(pattern) {
        Ok(re) => Some(re.is_match(text)),
        Err(_) => None,
    }
}

/// The language codes, as a whole-text pattern.
pub const LANGUAGE_PATTERN: &'static str = "^(en|ja|fr|de|it|ru|eo)$";

/// A number of contest rounds: below `low` is too small, above `up` too
/// large.
pub fn range_validator(low: u32, up: u32, num: &str) -> (r: Result<(), String>)
    ensures
        match decimal_value(num@) {
            Some(v) if v <= u32::MAX => if v < low {
                r is Err && r->Err_0@ == "too small number."@
            } else if v > up {
                r is Err && r->Err_0@ == "too large number."@
            } else {
                r is Ok
            },
            _ => r is Err && r->Err_0@ == "please specify unsigned integer after '~contest'."@,
        },
{
    match parse_u32(num) {
        None => Err(String::from_str("please specify unsigned integer after '~contest'.")),
        Some(n) => if n < low {
            Err(String::from_str("too small number."))
        } else if n > up {
            Err(String::from_str("too large number."))
        } else {
            Ok(())
        },
    }
}

/// A hint length: any `usize` written in decimal.
pub fn parse_validator(num: &str) -> (r: Result<(), String>)
    ensures
        match decimal_value(num@) {
            Some(v) if v <= usize::MAX => r is Ok,
            _ => r is Err && r->Err_0@ == "`"@ + num@ + "` is invalid."@,
        },
{
    match parse_usize(num) {
        Some(_) => Ok(()),
        None => Err(String::from_str("`").concat(num).concat("` is invalid.")),
    }
}

/// The reply to a language argument, given whether it matched
/// `LANGUAGE_PATTERN` (`None` if the pattern could not be used).
pub fn language_verdict(matched: Option<bool>, language: &str) -> (r: Result<(), String>)
    ensures
        matched == Some(true) ==> r is Ok,
        matched != Some(true) ==> r is Err && r->Err_0@ == "unexpected language '"@ + language@
            + "'."@,
{
    match matched {
        Some(true) => Ok(()),
        _ => Err(String::from_str("unexpected language '").concat(language).concat("'.")),
    }
}

/// A language argument: accepted exactly when `LANGUAGE_PATTERN` matches it.
pub fn language_validator(language: &str) -> (r: Result<(), String>)
    ensures
        r is Ok <==> (regex_compiles(LANGUAGE_PATTERN@) && regex_matches(
            LANGUAGE_PATTERN@,
            language@,
        )),
        r is Err ==> r->Err_0@ == "unexpected language '"@ + language@ + "'."@,
{
    language_verdict(regex_is_match(LANGUAGE_PATTERN, language), language)
}

/// A command prefix: at most five bytes, unless it is not ASCII.
pub fn prefix_validator(prefix: &str) -> (r: Result<(), String>)
    ensures
        r is Ok <==> (!prefix.is_ascii() || prefix.len() <= 5),
        r is Err ==> r->Err_0@
            == "Please specify an ASCII string that less than or equal to 5 characters"@,
{
    if !prefix.is_ascii() || prefix.len() <= 5 {
        Ok(())
    } else {
        Err(String::from_str("Please specify an ASCII string that less than or equal to 5 characters"))
    }
}

} // verus!
