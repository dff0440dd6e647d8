//! Character classes used by quality triage and whitespace normalization.
//!
//! The Unicode-wide classes come from the standard library and are only
//! named here; the ASCII punctuation class is small enough to state exactly.

use vstd::prelude::*;

verus! {

/// Whether a character is Unicode-alphanumeric.
pub uninterp spec fn alnum_char(c: char) -> bool;

/// Whether a character has the Unicode white-space property.
pub uninterp spec fn white_char(c: char) -> bool;

/// Whether a character is a Unicode control code.
pub uninterp spec fn control_char(c: char) -> bool;

/// Relies on char::is_alphanumeric: whether the character lies in a Unicode
/// letter or number category, a property of the character alone.
#[verifier::external_body]
pub fn is_alnum(c: char) -> (r: bool)
    ensures
        r == alnum_char(c),
{
    c.is_alphanumeric()
}

/// Relies on char::is_whitespace: whether the character has the Unicode
/// White_Space property, a property of the character alone.
#[verifier::external_body]
pub fn is_white(c: char) -> (r: bool)
    ensures
        r == white_char(c),
{
    c.is_whitespace()
}

/// Relies on char::is_control: whether the character is a Unicode control
/// code, a property of the character alone.
#[verifier::external_body]
pub fn is_control(c: char) -> (r: bool)
    ensures
        r == control_char(c),
{
    c.is_control()
}

/// ASCII punctuation: the four ranges from `!` to `/`, `:` to `@`,
/// `[` to the backtick, and `{` to `~`.
pub open spec fn ascii_punct(c: char) -> bool {
    ||| ('!' as u32) <= (c as u32) && (c as u32) <= ('/' as u32)
    ||| (':' as u32) <= (c as u32) && (c as u32) <= ('@' as u32)
    ||| ('[' as u32) <= (c as u32) && (c as u32) <= ('`' as u32)
    ||| ('{' as u32) <= (c as u32) && (c as u32) <= ('~' as u32)
}

pub fn is_ascii_punct(c: char) -> (r: bool)
    ensures
        r == ascii_punct(c),
{
    let u = c as u32;
    (0x21 <= u && u <= 0x2f) || (0x3a <= u && u <= 0x40) || (0x5b <= u && u <= 0x60) || (0x7b
        <= u && u <= 0x7e)
}

/// Plausible document content: not a control code, and alphanumeric,
/// ASCII punctuation or white space.
pub open spec fn plausible_char(c: char) -> bool {
    !control_char(c) && (alnum_char(c) || ascii_punct(c) || white_char(c))
}

pub fn is_plausible(c: char) -> (r: bool)
    ensures
        r == plausible_char(c),
{
    !is_control(c) && (is_alnum(c) || is_ascii_punct(c) || is_white(c))
}

} // verus!
