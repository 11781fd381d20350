//! Reading the argument of a macro as an expression.
//!
//! The parser is given a text only if the text is of a plain kind, which is
//! told from its characters alone: printable ASCII of limited length, in
//! which the only literals are strings without escapes and numbers made of
//! digits.  Of every other text the parser is known to refuse or to misread
//! some, so none of them is handed to it.

use vstd::prelude::*;
use vstd::string::StrSliceExecFns;

verus! {

/// The longest text that is handed to the parser, in characters.  The
/// parser calls itself once for each level of nesting in the text.
pub const READABLE_LEN: usize = 256;

/// What the scan of a text has to remember from one character to the next.
#[derive(Clone, Copy, Debug, PartialEq, Eq, Structural)]
pub struct Scan {
    /// Inside a string literal.
    pub in_string: bool,
    /// Inside a word that started with a digit.
    pub in_number: bool,
    /// The character before.
    pub prev: char,
}

/// A letter, a digit or `_`.
pub open spec fn ident_char(c: char) -> bool {
    ||| 'a' <= c <= 'z'
    ||| 'A' <= c <= 'Z'
    ||| '0' <= c <= '9'
    ||| c == '_'
}

pub open spec fn digit(c: char) -> bool {
    '0' <= c <= '9'
}

/// The scan at the start of a text.
pub open spec fn scan_start() -> Scan {
    Scan { in_string: false, in_number: false, prev: ' ' }
}

/// The scan after the character `c`, or `None` if `c` makes the text one
/// that the parser is not given:
/// - a character that is not printable ASCII, an apostrophe or a backslash;
/// - the start of a comment;
/// - a quotation mark that opens a string right after a letter, a digit,
///   `_` or `#`, as the prefixed and raw strings do;
/// - a letter, a digit or `_` right after the end of a string;
/// - a letter or `_` in a word that started with a digit.
pub open spec fn scan_step(st: Scan, c: char) -> Option<Scan> {
    if !(' ' <= c <= '~') || c == '\'' || c == '\\' || (st.prev == '/' && (c == '/' || c == '*')) {
        None
    } else if st.in_string {
        Some(Scan { in_string: c != '"', in_number: false, prev: c })
    } else if c == '"' {
        if ident_char(st.prev) || st.prev == '#' {
            None
        } else {
            Some(Scan { in_string: true, in_number: false, prev: c })
        }
    } else if ident_char(c) {
        let in_number = if ident_char(st.prev) {
            st.in_number
        } else {
            digit(c)
        };
        if st.prev == '"' || (in_number && !digit(c)) {
            None
        } else {
            Some(Scan { in_string: false, in_number, prev: c })
        }
    } else {
        Some(Scan { in_string: false, in_number: false, prev: c })
    }
}

/// Whether the scan gets from the character at `i` to the end of `text`
/// and ends outside a string.
pub open spec fn scan_from(text: Seq<char>, i: int, st: Scan) -> bool
    decreases text.len() - i,
{
    if i < 0 || i >= text.len() {
        !st.in_string
    } else {
        match scan_step(st, text[i]) {
            Some(next) => scan_from(text, i + 1, next),
            None => false,
        }
    }
}

/// A text that the parser is given.
pub open spec fn readable(text: Seq<char>) -> bool {
    text.len() <= READABLE_LEN && scan_from(text, 0, scan_start())
}

fn is_ident_char(c: char) -> (r: bool)
    ensures
        r == ident_char(c),
{
    ('a' <= c && c <= 'z') || ('A' <= c && c <= 'Z') || ('0' <= c && c <= '9') || c == '_'
}

fn step(st: Scan, c: char) -> (r: Option<Scan>)
    ensures
        r == scan_step(st, c),
{
    if !(' ' <= c && c <= '~') || c == '\'' || c == '\\' || (st.prev == '/' && (c == '/' || c
        == '*')) {
        None
    } else if st.in_string {
        Some(Scan { in_string: c != '"', in_number: false, prev: c })
    } else if c == '"' {
        if is_ident_char(st.prev) || st.prev == '#' {
            None
        } else {
            Some(Scan { in_string: true, in_number: false, prev: c })
        }
    } else if is_ident_char(c) {
        let is_digit = '0' <= c && c <= '9';
        let in_number = if is_ident_char(st.prev) {
            st.in_number
        } else {
            is_digit
        };
        if st.prev == '"' || (in_number && !is_digit) {
            None
        } else {
            Some(Scan { in_string: false, in_number, prev: c })
        }
    } else {
        Some(Scan { in_string: false, in_number: false, prev: c })
    }
}

/// Whether `tokens` is a text that the parser is given.
pub fn is_readable(tokens: &str) -> (r: bool)
    ensures
        r == readable(tokens@),
{
    let n = tokens.unicode_len();
    if n > READABLE_LEN {
        return false;
    }
    let mut st = Scan { in_string: false, in_number: false, prev: ' ' };
    let mut i: usize = 0;
    while i < n
        invariant
            i <= n,
            n == tokens@.len(),
            readable(tokens@) == scan_from(tokens@, i as int, st),
        decreases n - i,
    {
        match step(st, tokens.get_char(i)) {
            Some(next) => {
                st = next;
            },
            None => {
                return false;
            },
        }
        i += 1;
    }
    !st.in_string
}

/// Calls `syn::parse_str::<syn::Expr>` on `tokens` and returns the
/// `Display` text of the `syn::Error` if there is one.  Nothing is claimed
/// of what comes back: which texts the lexer underneath takes depends on
/// where the process runs.  The text has to be `readable`: `syn` panics on
/// a literal that it does not know, and on some escapes, and in a readable
/// text every literal is a string without escapes or a number made of
/// digits with at most one dot, which `syn` knows.
#[verifier::external_body]
pub(crate) fn read_as_expression(tokens: &str) -> (r: Option<String>)
    requires
        readable(tokens@),
{
    match syn::parse_str::<syn::Expr>(tokens) {
        Ok(_) => None,
        Err(error) => Some(error.to_string()),
    }
}

} // verus!
