//! The parser of query declarations.
//!
//! A unit is a sequence of declarations:
//!
//! ```text
//! [ '#' '[' attr (',' attr)* ']' ]
//! name '(' (name ':' type (',' name ':' type)*)? ')'
//! [ '->' '[' '(' type (',' type)* ')' ']' ]
//! '{' string-literal '}'
//! ```
//!
//! where `attr` is `rusqlite`, `postgres`, `named`, or
//! `test` [ `(` `with` `=` `[` name (',' name)* `]` `)` ]. Lists may end with
//! a comma. Comments (`// ...` and nested `/* ... */`) count as white space.
//! Names are Rust identifiers. The SQL text is a Rust string literal, quoted
//! with Rust's escapes or raw. Every parser below takes the text and a
//! position, and gives back what it read with the number of characters it
//! consumed.
use vstd::prelude::*;
use crate::model::{Kind, QuerySpec, Param, Output, Query, param_names, distinct, params_view, outputs_view, queries_view};
use crate::rewrite::{is_ident_start, is_ident_char, views};
use crate::text::{is_word, same_chars, chars_of};
use vstd::utf8::is_scalar;

verus! {

/// What went wrong, and where.
#[derive(Clone, Copy, Debug, PartialEq, Eq, Structural)]
pub enum ParseErrorKind {
    /// The given character was expected.
    Expected(char),
    ExpectedIdent,
    ExpectedType,
    ExpectedString,
    UnterminatedString,
    BadEscape,
    UnknownAttribute,
    UnknownTestAttribute,
    /// No backend kind was given.
    MissingKind,
    /// More than one backend kind was given.
    DuplicateKind,
    /// Two parameters of one query share a name.
    DuplicateParam,
    /// Two queries share a name.
    DuplicateQuery,
}

/// A parse error at a character position of the unit.
#[derive(Clone, Copy, Debug, PartialEq, Eq, Structural)]
pub struct ParseError {
    pub at: usize,
    pub kind: ParseErrorKind,
}

pub open spec fn err(at: nat, kind: ParseErrorKind) -> ParseError {
    ParseError { at: at as usize, kind }
}

/// A measure for recursion over positions: what is left of the text.
pub open spec fn left(s: Seq<char>, i: nat) -> nat {
    if i < s.len() {
        (s.len() - i) as nat
    } else {
        0
    }
}

pub open spec fn is_ws(c: char) -> bool {
    c == ' ' || c == '\t' || c == '\n' || c == '\r'
}

/// The number of white-space characters from `i` on.
pub open spec fn blank_len(s: Seq<char>, i: nat) -> nat
    decreases left(s, i),
{
    if i < s.len() && is_ws(s[i as int]) {
        1 + blank_len(s, i + 1)
    } else {
        0
    }
}

/// The number of characters from `k` on up to the end of the line, the
/// line break not included.
pub open spec fn line_len(s: Seq<char>, k: nat) -> nat
    decreases left(s, k),
{
    if k < s.len() && s[k as int] != '\n' {
        1 + line_len(s, k + 1)
    } else {
        0
    }
}

/// The rest of a block comment from `k` on, inside `depth` open comments:
/// its length up to and including the `*/` that closes the outermost one.
/// Block comments nest. `None` when the text ends first.
pub open spec fn block_len(s: Seq<char>, k: nat, depth: nat) -> Option<nat>
    decreases left(s, k),
{
    if k >= s.len() {
        None
    } else if k + 1 < s.len() && s[k as int] == '*' && s[k + 1int] == '/' {
        if depth <= 1 {
            Some(2)
        } else {
            shift(2, block_len(s, k + 2, (depth - 1) as nat))
        }
    } else if k + 1 < s.len() && s[k as int] == '/' && s[k + 1int] == '*' {
        shift(2, block_len(s, k + 2, depth + 1))
    } else {
        shift(1, block_len(s, k + 1, depth))
    }
}

/// The length of the comment that starts at `k` (`// ...` up to the end of
/// the line, or a closed `/* ... */`), or zero.
pub open spec fn comment_len(s: Seq<char>, k: nat) -> nat {
    if k + 1 < s.len() && s[k as int] == '/' && s[k + 1int] == '/' {
        2 + line_len(s, k + 2)
    } else if k + 1 < s.len() && s[k as int] == '/' && s[k + 1int] == '*' {
        match block_len(s, k + 2, 1) {
            Some(n) => 2 + n,
            None => 0,
        }
    } else {
        0
    }
}

/// The number of characters of white space and comments from `i` on.
pub open spec fn ws_len(s: Seq<char>, i: nat) -> nat
    decreases left(s, i),
{
    if i < s.len() && is_ws(s[i as int]) {
        1 + ws_len(s, i + 1)
    } else if comment_len(s, i) > 0 {
        comment_len(s, i) + ws_len(s, i + comment_len(s, i))
    } else {
        0
    }
}

/// Whether `c` has the Unicode property XID_Start.
pub uninterp spec fn xid_start(c: char) -> bool;

/// Whether `c` has the Unicode property XID_Continue.
pub uninterp spec fn xid_continue(c: char) -> bool;

/// Whether `c` can start an identifier: an ASCII letter, an underscore, or
/// a non-ASCII character with XID_Start.
pub open spec fn name_start(c: char) -> bool {
    is_ident_start(c) || ((c as u32) > 0x7f && xid_start(c))
}

/// Whether `c` can continue an identifier: an ASCII letter, digit or
/// underscore, or a non-ASCII character with XID_Continue.
pub open spec fn name_char(c: char) -> bool {
    is_ident_char(c) || ((c as u32) > 0x7f && xid_continue(c))
}

pub open spec fn skip(s: Seq<char>, i: nat) -> nat {
    i + ws_len(s, i)
}

/// The number of identifier characters from `i` on.
pub open spec fn ident_len(s: Seq<char>, i: nat) -> nat
    decreases left(s, i),
{
    if i < s.len() && name_char(s[i as int]) {
        1 + ident_len(s, i + 1)
    } else {
        0
    }
}

/// Whether the next character after white space is `c`.
pub open spec fn peek(s: Seq<char>, i: nat, c: char) -> bool {
    skip(s, i) < s.len() && s[skip(s, i) as int] == c
}

/// An identifier, after white space.
pub open spec fn p_ident(s: Seq<char>, i: nat) -> Result<(Seq<char>, nat), ParseError> {
    let j = skip(s, i);
    if j < s.len() && name_start(s[j as int]) {
        Ok((s.subrange(j as int, (j + ident_len(s, j)) as int), ws_len(s, i) + ident_len(s, j)))
    } else {
        Err(err(j, ParseErrorKind::ExpectedIdent))
    }
}

/// The character `c`, after white space.
pub open spec fn p_punct(s: Seq<char>, i: nat, c: char) -> Result<nat, ParseError> {
    if peek(s, i, c) {
        Ok(ws_len(s, i) + 1)
    } else {
        Err(err(skip(s, i), ParseErrorKind::Expected(c)))
    }
}


pub open spec fn is_open(c: char) -> bool {
    c == '<' || c == '(' || c == '['
}

pub open spec fn is_close(c: char) -> bool {
    c == '>' || c == ')' || c == ']'
}

/// A scan result of `d` more characters: the length of the region grows
/// by `d`, and so does the length up to its last significant character
/// when there is one, else that length is `sig`.
pub open spec fn extend(d: nat, sig: nat, r: Option<(nat, nat)>) -> Option<(nat, nat)> {
    match r {
        Some((n, t)) => Some((n + d, if t > 0 { t + d } else { sig })),
        None => None,
    }
}

/// The type text from `k` on, at bracket depth `depth`: it ends before a
/// `,` or `)` at depth zero. An arrow `->` does not close a bracket. Gives
/// the length of the region and the length up to its last character that
/// is neither white space nor part of a comment; `None` when the text ends
/// first.
pub open spec fn type_scan(s: Seq<char>, k: nat, depth: nat) -> Option<(nat, nat)>
    decreases left(s, k),
{
    if k >= s.len() {
        None
    } else {
        let c = s[k as int];
        if depth == 0 && (c == ',' || c == ')') {
            Some((0, 0))
        } else if is_ws(c) {
            extend(1, 0, type_scan(s, k + 1, depth))
        } else if comment_len(s, k) > 0 {
            extend(comment_len(s, k), 0, type_scan(s, k + comment_len(s, k), depth))
        } else if c == '-' && k + 1 < s.len() && s[k + 1int] == '>' {
            extend(2, 2, type_scan(s, k + 2, depth))
        } else if is_open(c) {
            extend(1, 1, type_scan(s, k + 1, depth + 1))
        } else if is_close(c) && depth > 0 {
            extend(1, 1, type_scan(s, k + 1, (depth - 1) as nat))
        } else {
            extend(1, 1, type_scan(s, k + 1, depth))
        }
    }
}

/// A type, after white space: the text up to the `,` or `)` that ends it,
/// without the white space and comments around it.
pub open spec fn p_type(s: Seq<char>, i: nat) -> Result<(Seq<char>, nat), ParseError> {
    let j = skip(s, i);
    match type_scan(s, j, 0) {
        None => Err(err(s.len(), ParseErrorKind::ExpectedType)),
        Some((n, t)) => if t == 0 {
            Err(err(j, ParseErrorKind::ExpectedType))
        } else {
            Ok((s.subrange(j as int, (j + t) as int), ws_len(s, i) + n))
        },
    }
}

/// `name ':' type`.
pub open spec fn p_param(s: Seq<char>, i: nat) -> Result<((Seq<char>, Seq<char>), nat), ParseError> {
    match p_ident(s, i) {
        Err(e) => Err(e),
        Ok((name, c1)) => match p_punct(s, i + c1, ':') {
            Err(e) => Err(e),
            Ok(c2) => match p_type(s, i + c1 + c2) {
                Err(e) => Err(e),
                Ok((ty, c3)) => Ok(((name, ty), c1 + c2 + c3)),
            },
        },
    }
}

/// Parameters separated by commas, up to (not including) the closing `)`.
pub open spec fn p_params(s: Seq<char>, i: nat) -> Result<(Seq<(Seq<char>, Seq<char>)>, nat), ParseError>
    decreases left(s, i),
{
    if peek(s, i, ')') {
        Ok((Seq::empty(), 0))
    } else {
        match p_param(s, i) {
            Err(e) => Err(e),
            Ok((p, c1)) => {
                let j = skip(s, i + c1);
                if j < s.len() && s[j as int] == ',' {
                    match p_params(s, j + 1) {
                        Err(e) => Err(e),
                        Ok((rest, c2)) => Ok((seq![p] + rest, (j + 1 + c2 - i) as nat)),
                    }
                } else {
                    Ok((seq![p], c1))
                }
            },
        }
    }
}

/// Types separated by commas, up to (not including) the closing `)`.
pub open spec fn p_types(s: Seq<char>, i: nat) -> Result<(Seq<Seq<char>>, nat), ParseError>
    decreases left(s, i),
{
    if peek(s, i, ')') {
        Ok((Seq::empty(), 0))
    } else {
        match p_type(s, i) {
            Err(e) => Err(e),
            Ok((t, c1)) => {
                let j = skip(s, i + c1);
                if j < s.len() && s[j as int] == ',' {
                    match p_types(s, j + 1) {
                        Err(e) => Err(e),
                        Ok((rest, c2)) => Ok((seq![t] + rest, (j + 1 + c2 - i) as nat)),
                    }
                } else {
                    Ok((seq![t], c1))
                }
            },
        }
    }
}

/// Identifiers separated by commas, up to (not including) the closing `]`.
pub open spec fn p_names(s: Seq<char>, i: nat) -> Result<(Seq<Seq<char>>, nat), ParseError>
    decreases left(s, i),
{
    if peek(s, i, ']') {
        Ok((Seq::empty(), 0))
    } else {
        match p_ident(s, i) {
            Err(e) => Err(e),
            Ok((n, c1)) => {
                let j = skip(s, i + c1);
                if j < s.len() && s[j as int] == ',' {
                    match p_names(s, j + 1) {
                        Err(e) => Err(e),
                        Ok((rest, c2)) => Ok((seq![n] + rest, (j + 1 + c2 - i) as nat)),
                    }
                } else {
                    Ok((seq![n], c1))
                }
            },
        }
    }
}

/// The value of a hexadecimal digit.
pub open spec fn hex_digit(c: char) -> Option<nat> {
    if '0' <= c && c <= '9' {
        Some((c as u32 - 48) as nat)
    } else if 'a' <= c && c <= 'f' {
        Some((c as u32 - 87) as nat)
    } else if 'A' <= c && c <= 'F' {
        Some((c as u32 - 55) as nat)
    } else {
        None
    }
}

/// The number of hexadecimal digits and underscores from `m` on.
pub open spec fn hex_run(s: Seq<char>, m: nat) -> nat
    decreases left(s, m),
{
    if m < s.len() && (hex_digit(s[m as int]) is Some || s[m as int] == '_') {
        1 + hex_run(s, m + 1)
    } else {
        0
    }
}

/// The number of hexadecimal digits in `s[from .. to]`.
pub open spec fn hex_count(s: Seq<char>, from: nat, to: nat) -> nat
    decreases to,
{
    if to <= from {
        0
    } else {
        hex_count(s, from, (to - 1) as nat) + if s[to - 1] == '_' { 0nat } else { 1nat }
    }
}

/// The number that the hexadecimal digits of `s[from .. to]` spell,
/// underscores skipped.
pub open spec fn hex_value(s: Seq<char>, from: nat, to: nat) -> nat
    decreases to,
{
    if to <= from {
        0
    } else {
        match hex_digit(s[to - 1]) {
            Some(d) => hex_value(s, from, (to - 1) as nat) * 16 + d,
            None => hex_value(s, from, (to - 1) as nat),
        }
    }
}

/// The character of a `\u{...}` escape whose backslash is at `k`, and the
/// length of the escape: one to six hexadecimal digits, the first one
/// before any underscore, naming a Unicode scalar value.
pub open spec fn unicode_escape(s: Seq<char>, k: nat) -> Option<(char, nat)> {
    let from = k + 3;
    let to = from + hex_run(s, from);
    if k + 3 < s.len() && s[k + 2int] == '{' && hex_digit(s[k + 3int]) is Some && to < s.len()
        && s[to as int] == '}' && hex_count(s, from, to) <= 6 && is_scalar(hex_value(s, from, to) as u32) {
        Some(((hex_value(s, from, to) as u32) as char, (to + 1 - k) as nat))
    } else {
        None
    }
}

/// The character of a `\xHH` escape whose backslash is at `k`: two
/// hexadecimal digits, at most `7F`.
pub open spec fn byte_escape(s: Seq<char>, k: nat) -> Option<char> {
    if k + 3 < s.len() && hex_digit(s[k + 2int]) is Some && hex_digit(s[k + 2int])->0 < 8 && hex_digit(
        s[k + 3int],
    ) is Some {
        Some(((hex_digit(s[k + 2int])->0 * 16 + hex_digit(s[k + 3int])->0) as u32) as char)
    } else {
        None
    }
}

/// The character that the escape `\e` stands for, for the escapes of one
/// character.
pub open spec fn unescape(e: char) -> Option<char> {
    if e == 'n' {
        Some('\n')
    } else if e == 't' {
        Some('\t')
    } else if e == 'r' {
        Some('\r')
    } else if e == '0' {
        Some('\0')
    } else if e == '\\' || e == '"' || e == '\'' {
        Some(e)
    } else {
        None
    }
}

/// The escape whose backslash is at `k`: the characters it stands for and
/// its length. A backslash before a line break stands for nothing, and
/// takes the line break and the white space after it.
pub open spec fn p_escape(s: Seq<char>, k: nat) -> Result<(Seq<char>, nat), ParseError> {
    if k + 1 >= s.len() {
        Err(err(s.len(), ParseErrorKind::UnterminatedString))
    } else if s[k + 1int] == '\n' {
        Ok((Seq::empty(), 1 + blank_len(s, k + 1)))
    } else if s[k + 1int] == 'x' {
        match byte_escape(s, k) {
            None => Err(err(k, ParseErrorKind::BadEscape)),
            Some(d) => Ok((seq![d], 4)),
        }
    } else if s[k + 1int] == 'u' {
        match unicode_escape(s, k) {
            None => Err(err(k, ParseErrorKind::BadEscape)),
            Some((d, n)) => Ok((seq![d], n)),
        }
    } else {
        match unescape(s[k + 1int]) {
            None => Err(err(k, ParseErrorKind::BadEscape)),
            Some(d) => Ok((seq![d], 2)),
        }
    }
}

/// The rest of a quoted string from `k`, up to and including the closing
/// quote: its decoded characters and its length in the text.
pub open spec fn p_quoted(s: Seq<char>, k: nat) -> Result<(Seq<char>, nat), ParseError>
    decreases left(s, k),
{
    if k >= s.len() {
        Err(err(s.len(), ParseErrorKind::UnterminatedString))
    } else if s[k as int] == '"' {
        Ok((Seq::empty(), 1))
    } else if s[k as int] == '\\' {
        match p_escape(s, k) {
            Err(e) => Err(e),
            Ok((d, n)) => prefixed(d, n, p_quoted(s, k + n)),
        }
    } else {
        prefixed(seq![s[k as int]], 1, p_quoted(s, k + 1))
    }
}

/// The number of `#` characters from `k` on.
pub open spec fn hash_len(s: Seq<char>, k: nat) -> nat
    decreases left(s, k),
{
    if k < s.len() && s[k as int] == '#' {
        1 + hash_len(s, k + 1)
    } else {
        0
    }
}

/// Whether a quote at `k` followed by `h` hashes closes a raw string.
pub open spec fn closes_raw(s: Seq<char>, k: nat, h: nat) -> bool {
    k < s.len() && s[k as int] == '"' && hash_len(s, k + 1) >= h
}

/// The length of a raw string's contents from `k` on, up to its closing
/// quote and hashes.
pub open spec fn raw_len(s: Seq<char>, k: nat, h: nat) -> Option<nat>
    decreases left(s, k),
{
    if k >= s.len() {
        None
    } else if closes_raw(s, k, h) {
        Some(0)
    } else {
        match raw_len(s, k + 1, h) {
            Some(n) => Some(n + 1),
            None => None,
        }
    }
}

/// A string literal, after white space: quoted with escapes, or raw
/// (`r"..."`, `r#"..."#`, ...).
pub open spec fn p_string(s: Seq<char>, i: nat) -> Result<(Seq<char>, nat), ParseError> {
    let j = skip(s, i);
    if j < s.len() && s[j as int] == '"' {
        match p_quoted(s, j + 1) {
            Err(e) => Err(e),
            Ok((v, n)) => Ok((v, ws_len(s, i) + 1 + n)),
        }
    } else if j < s.len() && s[j as int] == 'r' {
        let h = hash_len(s, j + 1);
        let k = j + 1 + h;
        if k < s.len() && s[k as int] == '"' {
            match raw_len(s, k + 1, h) {
                None => Err(err(s.len(), ParseErrorKind::UnterminatedString)),
                Some(n) => Ok((s.subrange(k + 1int, (k + 1 + n) as int), ws_len(s, i) + 1 + h + 1 + n + 1 + h)),
            }
        } else {
            Err(err(j, ParseErrorKind::ExpectedString))
        }
    } else {
        Err(err(j, ParseErrorKind::ExpectedString))
    }
}

/// What the attributes of a declaration have said so far.
pub struct AttrsSpec {
    pub kind: Option<Kind>,
    pub named: bool,
    pub test: Option<Seq<Seq<char>>>,
}

pub open spec fn no_attrs() -> AttrsSpec {
    AttrsSpec { kind: None, named: false, test: None }
}

/// The items of a `test(...)` attribute, up to (not including) the `)`:
/// each `with = [names]` adds its names to `acc`.
pub open spec fn p_test_items(s: Seq<char>, i: nat, acc: Seq<Seq<char>>) -> Result<(Seq<Seq<char>>, nat), ParseError>
    decreases left(s, i),
{
    if peek(s, i, ')') {
        Ok((acc, 0))
    } else {
        match p_ident(s, i) {
            Err(e) => Err(e),
            Ok((word, c1)) => if word != "with"@ {
                Err(err(skip(s, i), ParseErrorKind::UnknownTestAttribute))
            } else {
                match p_punct(s, i + c1, '=') {
                    Err(e) => Err(e),
                    Ok(c2) => match p_punct(s, i + c1 + c2, '[') {
                        Err(e) => Err(e),
                        Ok(c3) => match p_names(s, i + c1 + c2 + c3) {
                            Err(e) => Err(e),
                            Ok((names, c4)) => match p_punct(s, i + c1 + c2 + c3 + c4, ']') {
                                Err(e) => Err(e),
                                Ok(c5) => {
                                    let k = i + c1 + c2 + c3 + c4 + c5;
                                    let j = skip(s, k);
                                    if j < s.len() && s[j as int] == ',' {
                                        match p_test_items(s, j + 1, acc + names) {
                                            Err(e) => Err(e),
                                            Ok((all, c6)) => Ok((all, (j + 1 + c6 - i) as nat)),
                                        }
                                    } else {
                                        Ok((acc + names, (k - i) as nat))
                                    }
                                },
                            },
                        },
                    },
                }
            },
        }
    }
}

/// One attribute, added to `st`.
pub open spec fn p_attr(s: Seq<char>, i: nat, st: AttrsSpec) -> Result<(AttrsSpec, nat), ParseError> {
    match p_ident(s, i) {
        Err(e) => Err(e),
        Ok((word, c1)) => {
            let at = skip(s, i);
            if word == "rusqlite"@ || word == "postgres"@ {
                if st.kind is Some {
                    Err(err(at, ParseErrorKind::DuplicateKind))
                } else {
                    let kind = if word == "rusqlite"@ { Kind::Rusqlite } else { Kind::PostgreSQL };
                    Ok((AttrsSpec { kind: Some(kind), ..st }, c1))
                }
            } else if word == "named"@ {
                Ok((AttrsSpec { named: true, ..st }, c1))
            } else if word == "test"@ {
                let prior = match st.test {
                    Some(t) => t,
                    None => Seq::empty(),
                };
                if peek(s, i + c1, '(') {
                    let c2 = ws_len(s, i + c1) + 1;
                    match p_test_items(s, i + c1 + c2, prior) {
                        Err(e) => Err(e),
                        Ok((all, c3)) => match p_punct(s, i + c1 + c2 + c3, ')') {
                            Err(e) => Err(e),
                            Ok(c4) => Ok((AttrsSpec { test: Some(all), ..st }, c1 + c2 + c3 + c4)),
                        },
                    }
                } else {
                    Ok((AttrsSpec { test: Some(prior), ..st }, c1))
                }
            } else {
                Err(err(at, ParseErrorKind::UnknownAttribute))
            }
        },
    }
}

/// Attributes separated by commas, up to (not including) the closing `]`.
pub open spec fn p_attrs(s: Seq<char>, i: nat, st: AttrsSpec) -> Result<(AttrsSpec, nat), ParseError>
    decreases left(s, i),
{
    if peek(s, i, ']') {
        Ok((st, 0))
    } else {
        match p_attr(s, i, st) {
            Err(e) => Err(e),
            Ok((st2, c1)) => {
                let j = skip(s, i + c1);
                if j < s.len() && s[j as int] == ',' {
                    match p_attrs(s, j + 1, st2) {
                        Err(e) => Err(e),
                        Ok((st3, c2)) => Ok((st3, (j + 1 + c2 - i) as nat)),
                    }
                } else {
                    Ok((st2, c1))
                }
            },
        }
    }
}

/// The optional attribute block `#[...]`.
pub open spec fn p_attr_block(s: Seq<char>, i: nat) -> Result<(AttrsSpec, nat), ParseError> {
    if peek(s, i, '#') {
        let c1 = ws_len(s, i) + 1;
        match p_punct(s, i + c1, '[') {
            Err(e) => Err(e),
            Ok(c2) => match p_attrs(s, i + c1 + c2, no_attrs()) {
                Err(e) => Err(e),
                Ok((st, c3)) => match p_punct(s, i + c1 + c2 + c3, ']') {
                    Err(e) => Err(e),
                    Ok(c4) => Ok((st, c1 + c2 + c3 + c4)),
                },
            },
        }
    } else {
        Ok((no_attrs(), 0))
    }
}

/// Whether an arrow `->` comes next, after white space.
pub open spec fn peek_arrow(s: Seq<char>, i: nat) -> bool {
    skip(s, i) + 1 < s.len() && s[skip(s, i) as int] == '-' && s[skip(s, i) + 1int] == '>'
}

/// The optional output list `-> [( types )]`.
pub open spec fn p_outputs(s: Seq<char>, i: nat) -> Result<(Seq<Seq<char>>, nat), ParseError> {
    if peek_arrow(s, i) {
        let c1 = ws_len(s, i) + 2;
        match p_punct(s, i + c1, '[') {
            Err(e) => Err(e),
            Ok(c2) => match p_punct(s, i + c1 + c2, '(') {
                Err(e) => Err(e),
                Ok(c3) => match p_types(s, i + c1 + c2 + c3) {
                    Err(e) => Err(e),
                    Ok((ts, c4)) => match p_punct(s, i + c1 + c2 + c3 + c4, ')') {
                        Err(e) => Err(e),
                        Ok(c5) => match p_punct(s, i + c1 + c2 + c3 + c4 + c5, ']') {
                            Err(e) => Err(e),
                            Ok(c6) => Ok((ts, c1 + c2 + c3 + c4 + c5 + c6)),
                        },
                    },
                },
            },
        }
    } else {
        Ok((Seq::empty(), 0))
    }
}

/// The part of a declaration after its name: parameters, outputs and SQL.
pub open spec fn p_body(s: Seq<char>, i: nat) -> Result<(
    (Seq<(Seq<char>, Seq<char>)>, Seq<Seq<char>>, Seq<char>),
    nat,
), ParseError> {
    match p_punct(s, i, '(') {
        Err(e) => Err(e),
        Ok(c1) => match p_params(s, i + c1) {
            Err(e) => Err(e),
            Ok((ps, c2)) => match p_punct(s, i + c1 + c2, ')') {
                Err(e) => Err(e),
                Ok(c3) => match p_outputs(s, i + c1 + c2 + c3) {
                    Err(e) => Err(e),
                    Ok((os, c4)) => match p_punct(s, i + c1 + c2 + c3 + c4, '{') {
                        Err(e) => Err(e),
                        Ok(c5) => match p_string(s, i + c1 + c2 + c3 + c4 + c5) {
                            Err(e) => Err(e),
                            Ok((sql, c6)) => match p_punct(s, i + c1 + c2 + c3 + c4 + c5 + c6, '}') {
                                Err(e) => Err(e),
                                Ok(c7) => Ok(((ps, os, sql), c1 + c2 + c3 + c4 + c5 + c6 + c7)),
                            },
                        },
                    },
                },
            },
        },
    }
}

/// One declaration.
#[verifier::opaque]
pub open spec fn p_query(s: Seq<char>, i: nat) -> Result<(QuerySpec, nat), ParseError> {
    match p_attr_block(s, i) {
        Err(e) => Err(e),
        Ok((st, c1)) => match p_ident(s, i + c1) {
            Err(e) => Err(e),
            Ok((name, c2)) => {
                let at = skip(s, i + c1);
                match st.kind {
                    None => Err(err(at, ParseErrorKind::MissingKind)),
                    Some(kind) => match p_body(s, i + c1 + c2) {
                        Err(e) => Err(e),
                        Ok(((ps, os, sql), c3)) => if !distinct(param_names(ps)) {
                            Err(err(at, ParseErrorKind::DuplicateParam))
                        } else {
                            Ok((
                                QuerySpec {
                                    name,
                                    kind,
                                    named: st.named,
                                    params: ps,
                                    outputs: os,
                                    sql,
                                    test: st.test,
                                },
                                c1 + c2 + c3,
                            ))
                        },
                    },
                }
            },
        },
    }
}

pub open spec fn query_names(qs: Seq<QuerySpec>) -> Seq<Seq<char>> {
    qs.map_values(|q: QuerySpec| q.name)
}

/// The declarations from `i` on, after those in `acc`.
pub open spec fn p_unit(s: Seq<char>, i: nat, acc: Seq<QuerySpec>) -> Result<Seq<QuerySpec>, ParseError>
    decreases left(s, i),
    via p_unit_decreases
{
    let j = skip(s, i);
    if j >= s.len() {
        Ok(acc)
    } else {
        match p_query(s, j) {
            Err(e) => Err(e),
            Ok((q, c)) => if query_names(acc).contains(q.name) {
                Err(err(j, ParseErrorKind::DuplicateQuery))
            } else {
                p_unit(s, j + c, acc.push(q))
            },
        }
    }
}

#[via_fn]
proof fn p_unit_decreases(s: Seq<char>, i: nat, acc: Seq<QuerySpec>) {
    reveal(p_query);
}

/// Query names are unique, and so are the parameter names of each query.
pub open spec fn unique_names(qs: Seq<QuerySpec>) -> bool {
    &&& distinct(query_names(qs))
    &&& forall|k: int| 0 <= k < qs.len() ==> distinct(param_names(#[trigger] qs[k].params))
}

proof fn lemma_unit_unique(s: Seq<char>, i: nat, acc: Seq<QuerySpec>)
    requires
        unique_names(acc),
    ensures
        p_unit(s, i, acc) matches Ok(qs) ==> unique_names(qs),
    decreases left(s, i),
{
    reveal(p_query);
    let j = skip(s, i);
    if j < s.len() {
        if let Ok((q, c)) = p_query(s, j) {
            if !query_names(acc).contains(q.name) {
                let next = acc.push(q);
                assert(query_names(next) =~= query_names(acc).push(q.name));
                assert forall|a: int, b: int| 0 <= a < b < query_names(next).len() implies query_names(next)[a] != query_names(next)[b] by {
                    if b == acc.len() {
                        assert(query_names(acc)[a] == acc[a].name);
                    }
                }
                assert forall|k: int| 0 <= k < next.len() implies distinct(param_names(#[trigger] next[k].params)) by {
                    if k < acc.len() {
                        assert(next[k] == acc[k]);
                    }
                }
                lemma_unit_unique(s, j + c, next);
            }
        }
    }
}

/// A unit that parses names each query once, and each parameter of a query
/// once.
pub proof fn parsed_names_unique(s: Seq<char>)
    ensures
        parse_spec(s) matches Ok(qs) ==> unique_names(qs),
{
    assert(query_names(Seq::<QuerySpec>::empty()) =~= Seq::empty());
    lemma_unit_unique(s, 0, Seq::empty());
}

/// The declarations of a whole unit.
pub open spec fn parse_spec(s: Seq<char>) -> Result<Seq<QuerySpec>, ParseError> {
    p_unit(s, 0, Seq::empty())
}


pub open spec fn shift(d: nat, r: Option<nat>) -> Option<nat> {
    match r {
        Some(n) => Some(n + d),
        None => None,
    }
}

pub open spec fn prefixed(prefix: Seq<char>, d: nat, r: Result<(Seq<char>, nat), ParseError>) -> Result<(Seq<char>, nat), ParseError> {
    match r {
        Ok((v, n)) => Ok((prefix + v, n + d)),
        Err(e) => Err(e),
    }
}

fn is_space(c: char) -> (r: bool)
    ensures
        r == is_ws(c),
{
    c == ' ' || c == '\t' || c == '\n' || c == '\r'
}

/// Relies on `unicode_ident::is_xid_start`: whether `c` has XID_Start.
#[verifier::external_body]
fn xid_start_of(c: char) -> (r: bool)
    ensures
        r == xid_start(c),
{
    unicode_ident::is_xid_start(c)
}

/// Relies on `unicode_ident::is_xid_continue`: whether `c` has
/// XID_Continue.
#[verifier::external_body]
fn xid_continue_of(c: char) -> (r: bool)
    ensures
        r == xid_continue(c),
{
    unicode_ident::is_xid_continue(c)
}

/// Relies on `char::from_u32`, which gives the character with scalar value
/// `v`, and `None` when `v` is not a Unicode scalar value.
#[verifier::external_body]
fn char_of(v: u32) -> (r: Option<char>)
    ensures
        is_scalar(v) ==> r == Some(v as char),
        !is_scalar(v) ==> r is None,
{
    char::from_u32(v)
}

fn is_ascii_start(c: char) -> (r: bool)
    ensures
        r == is_ident_start(c),
{
    ('A' <= c && c <= 'Z') || ('a' <= c && c <= 'z') || c == '_'
}

fn is_start(c: char) -> (r: bool)
    ensures
        r == name_start(c),
{
    is_ascii_start(c) || ((c as u32) > 0x7f && xid_start_of(c))
}

fn is_continue(c: char) -> (r: bool)
    ensures
        r == name_char(c),
{
    is_ascii_start(c) || ('0' <= c && c <= '9') || ((c as u32) > 0x7f && xid_continue_of(c))
}

fn blank(s: &Vec<char>, i: usize) -> (n: usize)
    requires
        i <= s@.len() <= usize::MAX,
    ensures
        n == blank_len(s@, i as nat),
        i + n <= s@.len(),
{
    let mut k: usize = i;
    while k < s.len() && is_space(s[k])
        invariant
            i <= k <= s@.len(),
            blank_len(s@, k as nat) + (k - i) == blank_len(s@, i as nat),
        decreases s@.len() - k,
    {
        k = k + 1;
    }
    k - i
}

fn line_length(s: &Vec<char>, i: usize) -> (n: usize)
    requires
        i <= s@.len() <= usize::MAX,
    ensures
        n == line_len(s@, i as nat),
        i + n <= s@.len(),
{
    let mut k: usize = i;
    while k < s.len() && s[k] != '\n'
        invariant
            i <= k <= s@.len(),
            line_len(s@, k as nat) + (k - i) == line_len(s@, i as nat),
        decreases s@.len() - k,
    {
        k = k + 1;
    }
    k - i
}

fn block_length(s: &Vec<char>, start: usize) -> (r: Option<usize>)
    requires
        start <= s@.len() <= usize::MAX,
    ensures
        match r {
            Some(n) => block_len(s@, start as nat, 1) == Some(n as nat) && start + n <= s@.len(),
            None => block_len(s@, start as nat, 1) is None,
        },
{
    let len = s.len();
    let mut k: usize = start;
    let mut depth: usize = 1;
    while k < len
        invariant
            len == s@.len(),
            start <= k <= len,
            1 <= depth <= k - start + 1,
            block_len(s@, start as nat, 1) == shift((k - start) as nat, block_len(s@, k as nat, depth as nat)),
        decreases len - k,
    {
        if k + 1 < len && s[k] == '*' && s[k + 1] == '/' {
            if depth <= 1 {
                return Some(k + 2 - start);
            }
            depth = depth - 1;
            k = k + 2;
        } else if k + 1 < len && s[k] == '/' && s[k + 1] == '*' {
            depth = depth + 1;
            k = k + 2;
        } else {
            k = k + 1;
        }
    }
    None
}

fn comment_length(s: &Vec<char>, k: usize) -> (n: usize)
    requires
        k <= s@.len() <= usize::MAX,
    ensures
        n == comment_len(s@, k as nat),
        k + n <= s@.len(),
{
    let len = s.len();
    if k < len && k + 1 < len && s[k] == '/' && s[k + 1] == '/' {
        2 + line_length(s, k + 2)
    } else if k < len && k + 1 < len && s[k] == '/' && s[k + 1] == '*' {
        match block_length(s, k + 2) {
            Some(n) => 2 + n,
            None => 0,
        }
    } else {
        0
    }
}

fn ws(s: &Vec<char>, i: usize) -> (n: usize)
    requires
        i <= s@.len() <= usize::MAX,
    ensures
        n == ws_len(s@, i as nat),
        i + n <= s@.len(),
{
    let len = s.len();
    let mut k: usize = i;
    while k < len
        invariant
            len == s@.len(),
            i <= k <= len,
            ws_len(s@, k as nat) + (k - i) == ws_len(s@, i as nat),
        decreases len - k,
    {
        if is_space(s[k]) {
            k = k + 1;
        } else {
            let c = comment_length(s, k);
            if c == 0 {
                assert(ws_len(s@, k as nat) == 0);
                return k - i;
            }
            k = k + c;
        }
    }
    k - i
}

fn ident_count(s: &Vec<char>, i: usize) -> (n: usize)
    requires
        i <= s@.len() <= usize::MAX,
    ensures
        n == ident_len(s@, i as nat),
        i + n <= s@.len(),
{
    let mut k: usize = i;
    while k < s.len() && is_continue(s[k])
        invariant
            i <= k <= s@.len(),
            ident_len(s@, k as nat) + (k - i) == ident_len(s@, i as nat),
        decreases s@.len() - k,
    {
        k = k + 1;
    }
    k - i
}

fn peek_char(s: &Vec<char>, i: usize, c: char) -> (r: bool)
    requires
        i <= s@.len() <= usize::MAX,
    ensures
        r == peek(s@, i as nat, c),
{
    let j = i + ws(s, i);
    j < s.len() && s[j] == c
}

fn ident(s: &Vec<char>, i: usize) -> (r: Result<(Vec<char>, usize), ParseError>)
    requires
        i <= s@.len() <= usize::MAX,
    ensures
        match r {
            Ok((v, c)) => p_ident(s@, i as nat) == Ok::<_, ParseError>((v@, c as nat)) && i + c <= s@.len(),
            Err(e) => p_ident(s@, i as nat) == Err::<(Seq<char>, nat), _>(e),
        },
{
    let w = ws(s, i);
    let j = i + w;
    if j < s.len() && is_start(s[j]) {
        let n = ident_count(s, j);
        let mut v: Vec<char> = Vec::new();
        crate::text::push_range(&mut v, s, j, j + n);
        assert(v@ =~= s@.subrange(j as int, (j + n) as int));
        Ok((v, w + n))
    } else {
        Err(ParseError { at: j, kind: ParseErrorKind::ExpectedIdent })
    }
}

fn punct(s: &Vec<char>, i: usize, c: char) -> (r: Result<usize, ParseError>)
    requires
        i <= s@.len() <= usize::MAX,
    ensures
        match r {
            Ok(n) => p_punct(s@, i as nat, c) == Ok::<nat, ParseError>(n as nat) && i + n <= s@.len() && n >= 1,
            Err(e) => p_punct(s@, i as nat, c) == Err::<nat, _>(e),
        },
{
    let w = ws(s, i);
    let j = i + w;
    if j < s.len() && s[j] == c {
        Ok(w + 1)
    } else {
        Err(ParseError { at: j, kind: ParseErrorKind::Expected(c) })
    }
}

fn type_len(s: &Vec<char>, j: usize) -> (r: Option<(usize, usize)>)
    requires
        j <= s@.len() <= usize::MAX,
    ensures
        match r {
            Some((n, t)) => type_scan(s@, j as nat, 0) == Some((n as nat, t as nat)) && t <= n && j + n <= s@.len(),
            None => type_scan(s@, j as nat, 0) is None,
        },
{
    let len = s.len();
    let mut k: usize = j;
    let mut depth: usize = 0;
    let mut sig: usize = 0;
    while k < len
        invariant
            len == s@.len(),
            j <= k <= len,
            depth <= k - j,
            sig <= k - j,
            type_scan(s@, j as nat, 0) == extend((k - j) as nat, sig as nat, type_scan(s@, k as nat, depth as nat)),
        decreases len - k,
    {
        let c = s[k];
        if depth == 0 && (c == ',' || c == ')') {
            return Some((k - j, sig));
        } else if is_space(c) {
            k = k + 1;
        } else {
            let m = comment_length(s, k);
            if m > 0 {
                k = k + m;
            } else if c == '-' && k + 1 < len && s[k + 1] == '>' {
                k = k + 2;
                sig = k - j;
            } else if c == '<' || c == '(' || c == '[' {
                depth = depth + 1;
                k = k + 1;
                sig = k - j;
            } else if (c == '>' || c == ')' || c == ']') && depth > 0 {
                depth = depth - 1;
                k = k + 1;
                sig = k - j;
            } else {
                k = k + 1;
                sig = k - j;
            }
        }
    }
    None
}

fn type_text(s: &Vec<char>, i: usize) -> (r: Result<(Vec<char>, usize), ParseError>)
    requires
        i <= s@.len() <= usize::MAX,
    ensures
        match r {
            Ok((v, c)) => p_type(s@, i as nat) == Ok::<_, ParseError>((v@, c as nat)) && i + c <= s@.len(),
            Err(e) => p_type(s@, i as nat) == Err::<(Seq<char>, nat), _>(e),
        },
{
    let w = ws(s, i);
    let j = i + w;
    match type_len(s, j) {
        None => Err(ParseError { at: s.len(), kind: ParseErrorKind::ExpectedType }),
        Some((n, t)) => {
            if t == 0 {
                Err(ParseError { at: j, kind: ParseErrorKind::ExpectedType })
            } else {
                let mut v: Vec<char> = Vec::new();
                crate::text::push_range(&mut v, s, j, j + t);
                assert(v@ =~= s@.subrange(j as int, (j + t) as int));
                Ok((v, w + n))
            }
        },
    }
}

fn param(s: &Vec<char>, i: usize) -> (r: Result<(Param, usize), ParseError>)
    requires
        i <= s@.len() <= usize::MAX,
    ensures
        match r {
            Ok((v, c)) => p_param(s@, i as nat) == Ok::<_, ParseError>((v@, c as nat)) && i + c <= s@.len(),
            Err(e) => p_param(s@, i as nat) == Err::<((Seq<char>, Seq<char>), nat), _>(e),
        },
{
    let (name, c1) = ident(s, i)?;
    let c2 = punct(s, i + c1, ':')?;
    let (ty, c3) = type_text(s, i + c1 + c2)?;
    Ok((Param { name, ty }, c1 + c2 + c3))
}

fn params(s: &Vec<char>, i: usize) -> (r: Result<(Vec<Param>, usize), ParseError>)
    requires
        i <= s@.len() <= usize::MAX,
    ensures
        match r {
            Ok((v, c)) => p_params(s@, i as nat) == Ok::<_, ParseError>((params_view(v@), c as nat)) && i + c <= s@.len(),
            Err(e) => p_params(s@, i as nat) == Err::<(Seq<(Seq<char>, Seq<char>)>, nat), _>(e),
        },
    decreases left(s@, i as nat),
{
    if peek_char(s, i, ')') {
        let v: Vec<Param> = Vec::new();
        assert(params_view(v@) =~= Seq::empty());
        return Ok((v, 0));
    }
    let (p, c1) = param(s, i)?;
    let j = i + c1 + ws(s, i + c1);
    if j < s.len() && s[j] == ',' {
        let (mut rest, c2) = params(s, j + 1)?;
        let ghost pv = p@;
        let ghost rv = rest@;
        let mut v = vec![p];
        v.append(&mut rest);
        assert(params_view(v@) =~= seq![pv] + params_view(rv));
        Ok((v, j + 1 + c2 - i))
    } else {
        let v = vec![p];
        assert(params_view(v@) =~= seq![v@[0]@]);
        Ok((v, c1))
    }
}


fn types(s: &Vec<char>, i: usize) -> (r: Result<(Vec<Output>, usize), ParseError>)
    requires
        i <= s@.len() <= usize::MAX,
    ensures
        match r {
            Ok((v, c)) => p_types(s@, i as nat) == Ok::<_, ParseError>((outputs_view(v@), c as nat)) && i + c <= s@.len(),
            Err(e) => p_types(s@, i as nat) == Err::<(Seq<Seq<char>>, nat), _>(e),
        },
    decreases left(s@, i as nat),
{
    if peek_char(s, i, ')') {
        let v: Vec<Output> = Vec::new();
        assert(outputs_view(v@) =~= Seq::empty());
        return Ok((v, 0));
    }
    let (ty, c1) = type_text(s, i)?;
    let j = i + c1 + ws(s, i + c1);
    let o = Output { ty };
    if j < s.len() && s[j] == ',' {
        let (mut rest, c2) = types(s, j + 1)?;
        let ghost ov = o@;
        let ghost rv = rest@;
        let mut v = vec![o];
        v.append(&mut rest);
        assert(outputs_view(v@) =~= seq![ov] + outputs_view(rv));
        Ok((v, j + 1 + c2 - i))
    } else {
        let v = vec![o];
        assert(outputs_view(v@) =~= seq![v@[0]@]);
        Ok((v, c1))
    }
}

fn names(s: &Vec<char>, i: usize) -> (r: Result<(Vec<Vec<char>>, usize), ParseError>)
    requires
        i <= s@.len() <= usize::MAX,
    ensures
        match r {
            Ok((v, c)) => p_names(s@, i as nat) == Ok::<_, ParseError>((views(v@), c as nat)) && i + c <= s@.len(),
            Err(e) => p_names(s@, i as nat) == Err::<(Seq<Seq<char>>, nat), _>(e),
        },
    decreases left(s@, i as nat),
{
    if peek_char(s, i, ']') {
        let v: Vec<Vec<char>> = Vec::new();
        assert(views(v@) =~= Seq::empty());
        return Ok((v, 0));
    }
    let (n, c1) = ident(s, i)?;
    let j = i + c1 + ws(s, i + c1);
    if j < s.len() && s[j] == ',' {
        let (mut rest, c2) = names(s, j + 1)?;
        let ghost nv = n@;
        let ghost rv = rest@;
        let mut v = vec![n];
        v.append(&mut rest);
        assert(views(v@) =~= seq![nv] + views(rv));
        Ok((v, j + 1 + c2 - i))
    } else {
        let v = vec![n];
        assert(views(v@) =~= seq![v@[0]@]);
        Ok((v, c1))
    }
}

fn unescape_char(e: char) -> (r: Option<char>)
    ensures
        r == unescape(e),
{
    if e == 'n' {
        Some('\n')
    } else if e == 't' {
        Some('\t')
    } else if e == 'r' {
        Some('\r')
    } else if e == '0' {
        Some('\0')
    } else if e == '\\' || e == '"' || e == '\'' {
        Some(e)
    } else {
        None
    }
}

fn hex_of(c: char) -> (r: Option<u32>)
    ensures
        match hex_digit(c) {
            Some(d) => r == Some(d as u32) && d < 16,
            None => r is None,
        },
{
    if '0' <= c && c <= '9' {
        Some(c as u32 - 48)
    } else if 'a' <= c && c <= 'f' {
        Some(c as u32 - 87)
    } else if 'A' <= c && c <= 'F' {
        Some(c as u32 - 55)
    } else {
        None
    }
}

pub open spec fn pow16(n: nat) -> nat
    decreases n,
{
    if n == 0 {
        1
    } else {
        16 * pow16((n - 1) as nat)
    }
}

proof fn lemma_hex_count_grows(s: Seq<char>, from: nat, m: nat, to: nat)
    requires
        m <= to,
    ensures
        hex_count(s, from, m) <= hex_count(s, from, to),
    decreases to - m,
{
    if m < to {
        lemma_hex_count_grows(s, from, m, (to - 1) as nat);
    }
}

fn hex_run_length(s: &Vec<char>, i: usize) -> (n: usize)
    requires
        i <= s@.len() <= usize::MAX,
    ensures
        n == hex_run(s@, i as nat),
        i + n <= s@.len(),
{
    let mut k: usize = i;
    while k < s.len() && (hex_of(s[k]).is_some() || s[k] == '_')
        invariant
            i <= k <= s@.len(),
            hex_run(s@, k as nat) + (k - i) == hex_run(s@, i as nat),
        decreases s@.len() - k,
    {
        k = k + 1;
    }
    k - i
}

fn hex_digits(s: &Vec<char>, from: usize, to: usize) -> (n: usize)
    requires
        from <= to <= s@.len(),
    ensures
        n == hex_count(s@, from as nat, to as nat),
{
    let mut m: usize = from;
    let mut n: usize = 0;
    while m < to
        invariant
            from <= m <= to <= s@.len(),
            n == hex_count(s@, from as nat, m as nat),
            n <= m - from,
        decreases to - m,
    {
        if s[m] != '_' {
            n = n + 1;
        }
        m = m + 1;
    }
    n
}

fn hex_number(s: &Vec<char>, from: usize, to: usize) -> (v: u32)
    requires
        from <= to <= s@.len(),
        hex_count(s@, from as nat, to as nat) <= 6,
    ensures
        v as nat == hex_value(s@, from as nat, to as nat),
{
    let mut m: usize = from;
    let mut v: u32 = 0;
    while m < to
        invariant
            from <= m <= to <= s@.len(),
            hex_count(s@, from as nat, to as nat) <= 6,
            v as nat == hex_value(s@, from as nat, m as nat),
            (v as nat) < pow16(hex_count(s@, from as nat, m as nat)),
        decreases to - m,
    {
        proof {
            lemma_hex_count_grows(s@, from as nat, (m + 1) as nat, to as nat);
        }
        match hex_of(s[m]) {
            Some(d) => {
                let ghost c = hex_count(s@, from as nat, m as nat);
                assert(c + 1 <= 6);
                assert(pow16(c) <= pow16(5)) by {
                    lemma_pow16_grows(c, 5);
                }
                assert(pow16(0) == 1);
                assert(pow16(1) == 16);
                assert(pow16(2) == 256);
                assert(pow16(3) == 4096);
                assert(pow16(4) == 65536);
                assert(pow16(5) == 1048576);
                assert(v * 16 + d < pow16(c) * 16) by (nonlinear_arith)
                    requires
                        (v as nat) < pow16(c),
                        d < 16,
                ;
                v = v * 16 + d;
            },
            None => {},
        }
        m = m + 1;
    }
    v
}

proof fn lemma_pow16_grows(a: nat, b: nat)
    requires
        a <= b,
    ensures
        pow16(a) <= pow16(b),
    decreases b - a,
{
    if a < b {
        lemma_pow16_grows(a, (b - 1) as nat);
    }
}

fn unicode_esc(s: &Vec<char>, k: usize) -> (r: Option<(char, usize)>)
    requires
        k + 1 < s@.len() <= usize::MAX,
    ensures
        match unicode_escape(s@, k as nat) {
            Some((c, n)) => r == Some((c, n as usize)) && k + n <= s@.len(),
            None => r is None,
        },
{
    let len = s.len();
    if !(len - k > 3 && s[k + 2] == '{') {
        return None;
    }
    if hex_of(s[k + 3]).is_none() {
        return None;
    }
    let from = k + 3;
    let to = from + hex_run_length(s, from);
    if !(to < len && s[to] == '}') {
        return None;
    }
    if hex_digits(s, from, to) > 6 {
        return None;
    }
    let v = hex_number(s, from, to);
    match char_of(v) {
        Some(c) => Some((c, to + 1 - k)),
        None => None,
    }
}

fn byte_esc(s: &Vec<char>, k: usize) -> (r: Option<char>)
    requires
        k + 1 < s@.len() <= usize::MAX,
    ensures
        r == byte_escape(s@, k as nat),
{
    let len = s.len();
    if len - k <= 3 {
        return None;
    }
    match (hex_of(s[k + 2]), hex_of(s[k + 3])) {
        (Some(a), Some(b)) => {
            if a >= 8 {
                return None;
            }
            let v = a * 16 + b;
            assert(is_scalar(v));
            char_of(v)
        },
        _ => None,
    }
}

pub open spec fn opt_seq(d: Option<char>) -> Seq<char> {
    match d {
        Some(c) => seq![c],
        None => Seq::empty(),
    }
}

fn escape(s: &Vec<char>, k: usize) -> (r: Result<(Option<char>, usize), ParseError>)
    requires
        k < s@.len() <= usize::MAX,
    ensures
        match r {
            Ok((d, n)) => p_escape(s@, k as nat) == Ok::<_, ParseError>((opt_seq(d), n as nat)) && k + n
                <= s@.len(),
            Err(e) => p_escape(s@, k as nat) == Err::<(Seq<char>, nat), _>(e),
        },
{
    let len = s.len();
    if k + 1 >= len {
        return Err(ParseError { at: len, kind: ParseErrorKind::UnterminatedString });
    }
    let e = s[k + 1];
    if e == '\n' {
        let b = blank(s, k + 1);
        assert(opt_seq(None) =~= Seq::<char>::empty());
        Ok((None, 1 + b))
    } else if e == 'x' {
        match byte_esc(s, k) {
            None => Err(ParseError { at: k, kind: ParseErrorKind::BadEscape }),
            Some(d) => Ok((Some(d), 4)),
        }
    } else if e == 'u' {
        match unicode_esc(s, k) {
            None => Err(ParseError { at: k, kind: ParseErrorKind::BadEscape }),
            Some((d, n)) => Ok((Some(d), n)),
        }
    } else {
        match unescape_char(e) {
            None => Err(ParseError { at: k, kind: ParseErrorKind::BadEscape }),
            Some(d) => Ok((Some(d), 2)),
        }
    }
}

fn quoted(s: &Vec<char>, start: usize) -> (r: Result<(Vec<char>, usize), ParseError>)
    requires
        start <= s@.len() <= usize::MAX,
    ensures
        match r {
            Ok((v, c)) => p_quoted(s@, start as nat) == Ok::<_, ParseError>((v@, c as nat)) && start + c <= s@.len(),
            Err(e) => p_quoted(s@, start as nat) == Err::<(Seq<char>, nat), _>(e),
        },
{
    let mut out: Vec<char> = Vec::new();
    let mut k: usize = start;
    let len = s.len();
    while k < len
        invariant
            len == s@.len(),
            start <= k <= len <= usize::MAX,
            p_quoted(s@, start as nat) == prefixed(out@, (k - start) as nat, p_quoted(s@, k as nat)),
        decreases len - k,
    {
        let ghost before = out@;
        let c = s[k];
        if c == '"' {
            assert(out@ =~= out@ + Seq::<char>::empty());
            return Ok((out, k + 1 - start));
        } else if c == '\\' {
            let (d, n) = escape(s, k)?;
            match d {
                Some(x) => out.push(x),
                None => {},
            }
            proof {
                assert(out@ =~= before + opt_seq(d));
                match p_quoted(s@, (k + n) as nat) {
                    Ok((rest, m)) => {
                        assert(before + (opt_seq(d) + rest) =~= out@ + rest);
                    },
                    Err(_) => {},
                }
            }
            k = k + n;
        } else {
            out.push(c);
            proof {
                match p_quoted(s@, (k + 1) as nat) {
                    Ok((rest, n)) => {
                        assert(before + (seq![c] + rest) =~= out@ + rest);
                    },
                    Err(_) => {},
                }
            }
            k = k + 1;
        }
    }
    Err(ParseError { at: len, kind: ParseErrorKind::UnterminatedString })
}

fn hashes(s: &Vec<char>, i: usize) -> (n: usize)
    requires
        i <= s@.len() <= usize::MAX,
    ensures
        n == hash_len(s@, i as nat),
        i + n <= s@.len(),
{
    let mut k: usize = i;
    while k < s.len() && s[k] == '#'
        invariant
            i <= k <= s@.len(),
            hash_len(s@, k as nat) + (k - i) == hash_len(s@, i as nat),
        decreases s@.len() - k,
    {
        k = k + 1;
    }
    k - i
}

fn raw_length(s: &Vec<char>, start: usize, h: usize) -> (r: Option<usize>)
    requires
        start <= s@.len() <= usize::MAX,
    ensures
        match r {
            Some(n) => raw_len(s@, start as nat, h as nat) == Some(n as nat) && start + n + 1 + h <= s@.len(),
            None => raw_len(s@, start as nat, h as nat) is None,
        },
{
    let mut k: usize = start;
    while k < s.len()
        invariant
            start <= k <= s@.len() <= usize::MAX,
            raw_len(s@, start as nat, h as nat) == shift((k - start) as nat, raw_len(s@, k as nat, h as nat)),
        decreases s@.len() - k,
    {
        if s[k] == '"' && hashes(s, k + 1) >= h {
            return Some(k - start);
        }
        k = k + 1;
    }
    None
}

fn string_lit(s: &Vec<char>, i: usize) -> (r: Result<(Vec<char>, usize), ParseError>)
    requires
        i <= s@.len() <= usize::MAX,
    ensures
        match r {
            Ok((v, c)) => p_string(s@, i as nat) == Ok::<_, ParseError>((v@, c as nat)) && i + c <= s@.len(),
            Err(e) => p_string(s@, i as nat) == Err::<(Seq<char>, nat), _>(e),
        },
{
    let w = ws(s, i);
    let j = i + w;
    if j < s.len() && s[j] == '"' {
        let (v, n) = quoted(s, j + 1)?;
        Ok((v, w + 1 + n))
    } else if j < s.len() && s[j] == 'r' {
        let h = hashes(s, j + 1);
        let k = j + 1 + h;
        if k < s.len() && s[k] == '"' {
            match raw_length(s, k + 1, h) {
                None => Err(ParseError { at: s.len(), kind: ParseErrorKind::UnterminatedString }),
                Some(n) => {
                    let mut v: Vec<char> = Vec::new();
                    crate::text::push_range(&mut v, s, k + 1, k + 1 + n);
                    assert(v@ =~= s@.subrange(k + 1int, (k + 1 + n) as int));
                    Ok((v, w + 1 + h + 1 + n + 1 + h))
                },
            }
        } else {
            Err(ParseError { at: j, kind: ParseErrorKind::ExpectedString })
        }
    } else {
        Err(ParseError { at: j, kind: ParseErrorKind::ExpectedString })
    }
}


/// What the attributes of a declaration have said so far.
struct Attrs {
    kind: Option<Kind>,
    named: bool,
    test: Option<Vec<Vec<char>>>,
}

impl Attrs {
    spec fn view(&self) -> AttrsSpec {
        AttrsSpec { kind: self.kind, named: self.named, test: crate::model::test_view(self.test) }
    }
}

fn test_items(s: &Vec<char>, i: usize, acc: Vec<Vec<char>>) -> (r: Result<(Vec<Vec<char>>, usize), ParseError>)
    requires
        i <= s@.len() <= usize::MAX,
    ensures
        match r {
            Ok((v, c)) => p_test_items(s@, i as nat, views(acc@)) == Ok::<_, ParseError>((views(v@), c as nat)) && i + c <= s@.len(),
            Err(e) => p_test_items(s@, i as nat, views(acc@)) == Err::<(Seq<Seq<char>>, nat), _>(e),
        },
    decreases left(s@, i as nat),
{
    if peek_char(s, i, ')') {
        return Ok((acc, 0));
    }
    let (word, c1) = ident(s, i)?;
    if !is_word(&word, "with") {
        return Err(ParseError { at: i + ws(s, i), kind: ParseErrorKind::UnknownTestAttribute });
    }
    let c2 = punct(s, i + c1, '=')?;
    let c3 = punct(s, i + c1 + c2, '[')?;
    let (mut found, c4) = names(s, i + c1 + c2 + c3)?;
    let c5 = punct(s, i + c1 + c2 + c3 + c4, ']')?;
    let k = i + c1 + c2 + c3 + c4 + c5;
    let ghost av = views(acc@);
    let ghost fv = views(found@);
    let mut all = acc;
    all.append(&mut found);
    assert(views(all@) =~= av + fv);
    let j = k + ws(s, k);
    if j < s.len() && s[j] == ',' {
        let (v, c6) = test_items(s, j + 1, all)?;
        Ok((v, j + 1 + c6 - i))
    } else {
        Ok((all, k - i))
    }
}

fn attr(s: &Vec<char>, i: usize, st: Attrs) -> (r: Result<(Attrs, usize), ParseError>)
    requires
        i <= s@.len() <= usize::MAX,
    ensures
        match r {
            Ok((v, c)) => p_attr(s@, i as nat, st@) == Ok::<_, ParseError>((v@, c as nat)) && i + c <= s@.len(),
            Err(e) => p_attr(s@, i as nat, st@) == Err::<(AttrsSpec, nat), _>(e),
        },
{
    let (word, c1) = ident(s, i)?;
    let at = i + ws(s, i);
    let sqlite = is_word(&word, "rusqlite");
    if sqlite || is_word(&word, "postgres") {
        if st.kind.is_some() {
            Err(ParseError { at, kind: ParseErrorKind::DuplicateKind })
        } else {
            let kind = if sqlite { Kind::Rusqlite } else { Kind::PostgreSQL };
            Ok((Attrs { kind: Some(kind), named: st.named, test: st.test }, c1))
        }
    } else if is_word(&word, "named") {
        Ok((Attrs { kind: st.kind, named: true, test: st.test }, c1))
    } else if is_word(&word, "test") {
        let prior: Vec<Vec<char>> = match st.test {
            Some(t) => t,
            None => Vec::new(),
        };
        assert(views(prior@) == match st@.test { Some(t) => t, None => Seq::<Seq<char>>::empty() }) by {
            if st.test is None {
                assert(views(prior@) =~= Seq::<Seq<char>>::empty());
            }
        }
        if peek_char(s, i + c1, '(') {
            let c2 = ws(s, i + c1) + 1;
            let (all, c3) = test_items(s, i + c1 + c2, prior)?;
            let c4 = punct(s, i + c1 + c2 + c3, ')')?;
            Ok((Attrs { kind: st.kind, named: st.named, test: Some(all) }, c1 + c2 + c3 + c4))
        } else {
            Ok((Attrs { kind: st.kind, named: st.named, test: Some(prior) }, c1))
        }
    } else {
        Err(ParseError { at, kind: ParseErrorKind::UnknownAttribute })
    }
}

fn attrs(s: &Vec<char>, i: usize, st: Attrs) -> (r: Result<(Attrs, usize), ParseError>)
    requires
        i <= s@.len() <= usize::MAX,
    ensures
        match r {
            Ok((v, c)) => p_attrs(s@, i as nat, st@) == Ok::<_, ParseError>((v@, c as nat)) && i + c <= s@.len(),
            Err(e) => p_attrs(s@, i as nat, st@) == Err::<(AttrsSpec, nat), _>(e),
        },
    decreases left(s@, i as nat),
{
    if peek_char(s, i, ']') {
        return Ok((st, 0));
    }
    let (st2, c1) = attr(s, i, st)?;
    let j = i + c1 + ws(s, i + c1);
    if j < s.len() && s[j] == ',' {
        let (st3, c2) = attrs(s, j + 1, st2)?;
        Ok((st3, j + 1 + c2 - i))
    } else {
        Ok((st2, c1))
    }
}

fn attr_block(s: &Vec<char>, i: usize) -> (r: Result<(Attrs, usize), ParseError>)
    requires
        i <= s@.len() <= usize::MAX,
    ensures
        match r {
            Ok((v, c)) => p_attr_block(s@, i as nat) == Ok::<_, ParseError>((v@, c as nat)) && i + c <= s@.len(),
            Err(e) => p_attr_block(s@, i as nat) == Err::<(AttrsSpec, nat), _>(e),
        },
{
    let none = Attrs { kind: None, named: false, test: None };
    assert(none@ == no_attrs());
    if peek_char(s, i, '#') {
        let c1 = ws(s, i) + 1;
        let c2 = punct(s, i + c1, '[')?;
        let (st, c3) = attrs(s, i + c1 + c2, none)?;
        let c4 = punct(s, i + c1 + c2 + c3, ']')?;
        Ok((st, c1 + c2 + c3 + c4))
    } else {
        Ok((none, 0))
    }
}

fn outputs(s: &Vec<char>, i: usize) -> (r: Result<(Vec<Output>, usize), ParseError>)
    requires
        i <= s@.len() <= usize::MAX,
    ensures
        match r {
            Ok((v, c)) => p_outputs(s@, i as nat) == Ok::<_, ParseError>((outputs_view(v@), c as nat)) && i + c <= s@.len(),
            Err(e) => p_outputs(s@, i as nat) == Err::<(Seq<Seq<char>>, nat), _>(e),
        },
{
    let w = ws(s, i);
    let j = i + w;
    if j < s.len() && s[j] == '-' && j + 1 < s.len() && s[j + 1] == '>' {
        let c1 = w + 2;
        let c2 = punct(s, i + c1, '[')?;
        let c3 = punct(s, i + c1 + c2, '(')?;
        let (ts, c4) = types(s, i + c1 + c2 + c3)?;
        let c5 = punct(s, i + c1 + c2 + c3 + c4, ')')?;
        let c6 = punct(s, i + c1 + c2 + c3 + c4 + c5, ']')?;
        Ok((ts, c1 + c2 + c3 + c4 + c5 + c6))
    } else {
        let v: Vec<Output> = Vec::new();
        assert(outputs_view(v@) =~= Seq::empty());
        Ok((v, 0))
    }
}

fn distinct_names(names: &Vec<Vec<char>>) -> (r: bool)
    ensures
        r == distinct(views(names@)),
{
    let n = names.len();
    let mut i: usize = 0;
    while i < n
        invariant
            n == names@.len(),
            i <= n,
            forall|a: int, b: int| 0 <= a < b < n && a < i ==> views(names@)[a] != views(names@)[b],
        decreases n - i,
    {
        let mut j: usize = i + 1;
        while j < n
            invariant
                n == names@.len(),
                i < n,
                i + 1 <= j <= n,
                forall|a: int, b: int| 0 <= a < b < n && a < i ==> views(names@)[a] != views(names@)[b],
                forall|b: int| i < b < j ==> views(names@)[i as int] != views(names@)[b],
            decreases n - j,
        {
            if same_chars(&names[i], &names[j]) {
                assert(views(names@)[i as int] == views(names@)[j as int]);
                return false;
            }
            j = j + 1;
        }
        i = i + 1;
    }
    true
}

/// The names of the parameters, in declaration order.
pub fn param_name_list(ps: &Vec<Param>) -> (r: Vec<Vec<char>>)
    ensures
        views(r@) == param_names(params_view(ps@)),
{
    let mut r: Vec<Vec<char>> = Vec::new();
    let mut i: usize = 0;
    while i < ps.len()
        invariant
            i <= ps@.len(),
            views(r@) == param_names(params_view(ps@.subrange(0, i as int))),
        decreases ps@.len() - i,
    {
        let ghost old_r = r@;
        let name = crate::text::copy_chars(&ps[i].name);
        r.push(name);
        assert(views(r@) =~= views(old_r).push(ps@[i as int].name@));
        assert(params_view(ps@.subrange(0, i + 1)) =~= params_view(ps@.subrange(0, i as int)).push(ps@[i as int]@));
        assert(param_names(params_view(ps@.subrange(0, i + 1))) =~= param_names(params_view(ps@.subrange(0, i as int))).push(ps@[i as int].name@));
        i = i + 1;
    }
    assert(ps@.subrange(0, ps@.len() as int) =~= ps@);
    r
}

#[verifier::rlimit(40)]
fn body(s: &Vec<char>, i: usize) -> (r: Result<(Vec<Param>, Vec<Output>, Vec<char>, usize), ParseError>)
    requires
        i <= s@.len() <= usize::MAX,
    ensures
        match r {
            Ok((ps, os, sql, c)) => p_body(s@, i as nat) == Ok::<_, ParseError>(
                ((params_view(ps@), outputs_view(os@), sql@), c as nat),
            ) && i + c <= s@.len() && c >= 1,
            Err(e) => p_body(s@, i as nat) == Err::<(
                (Seq<(Seq<char>, Seq<char>)>, Seq<Seq<char>>, Seq<char>),
                nat,
            ), _>(e),
        },
{
    let c1 = punct(s, i, '(')?;
    let (ps, c2) = params(s, i + c1)?;
    let c3 = punct(s, i + c1 + c2, ')')?;
    let (os, c4) = outputs(s, i + c1 + c2 + c3)?;
    let c5 = punct(s, i + c1 + c2 + c3 + c4, '{')?;
    let (sql, c6) = string_lit(s, i + c1 + c2 + c3 + c4 + c5)?;
    let c7 = punct(s, i + c1 + c2 + c3 + c4 + c5 + c6, '}')?;
    Ok((ps, os, sql, c1 + c2 + c3 + c4 + c5 + c6 + c7))
}

#[verifier::rlimit(40)]
fn query(s: &Vec<char>, i: usize) -> (r: Result<(Query, usize), ParseError>)
    requires
        i <= s@.len() <= usize::MAX,
    ensures
        match r {
            Ok((v, c)) => p_query(s@, i as nat) == Ok::<_, ParseError>((v@, c as nat)) && i + c <= s@.len() && c >= 1,
            Err(e) => p_query(s@, i as nat) == Err::<(QuerySpec, nat), _>(e),
        },
{
    reveal(p_query);
    let (st, c1) = attr_block(s, i)?;
    let (name, c2) = ident(s, i + c1)?;
    let at = i + c1 + ws(s, i + c1);
    let kind = match st.kind {
        None => {
            return Err(ParseError { at, kind: ParseErrorKind::MissingKind });
        },
        Some(k) => k,
    };
    let (ps, os, sql, c3) = body(s, i + c1 + c2)?;
    let pn = param_name_list(&ps);
    if !distinct_names(&pn) {
        return Err(ParseError { at, kind: ParseErrorKind::DuplicateParam });
    }
    let q = Query { name, kind, named: st.named, params: ps, outputs: os, sql, test: st.test };
    Ok((q, c1 + c2 + c3))
}

fn name_taken(qs: &Vec<Query>, name: &Vec<char>) -> (r: bool)
    ensures
        r == query_names(queries_view(qs@)).contains(name@),
{
    let mut i: usize = 0;
    while i < qs.len()
        invariant
            i <= qs@.len(),
            forall|k: int| 0 <= k < i ==> qs@[k].name@ != name@,
        decreases qs@.len() - i,
    {
        if same_chars(&qs[i].name, name) {
            assert(query_names(queries_view(qs@))[i as int] == name@);
            return true;
        }
        i = i + 1;
    }
    assert(!query_names(queries_view(qs@)).contains(name@)) by {
        if query_names(queries_view(qs@)).contains(name@) {
            let k = choose|k: int| 0 <= k < qs@.len() && query_names(queries_view(qs@))[k] == name@;
            assert(qs@[k].name@ == name@);
        }
    }
    false
}

/// Parses a unit of query declarations, given as characters.
#[verifier::rlimit(40)]
pub fn parse_chars(s: &Vec<char>) -> (r: Result<Vec<Query>, ParseError>)
    ensures
        match r {
            Ok(qs) => parse_spec(s@) == Ok::<_, ParseError>(queries_view(qs@)),
            Err(e) => parse_spec(s@) == Err::<Seq<QuerySpec>, _>(e),
        },
        r matches Ok(qs) ==> unique_names(queries_view(qs@)),
{
    proof {
        parsed_names_unique(s@);
    }
    let len = s.len();
    let mut acc: Vec<Query> = Vec::new();
    let mut i: usize = 0;
    assert(queries_view(acc@) =~= Seq::empty());
    while i < len
        invariant
            len == s@.len(),
            i <= len,
            p_unit(s@, i as nat, queries_view(acc@)) == parse_spec(s@),
            parse_spec(s@) matches Ok(qs) ==> unique_names(qs),
        decreases len - i,
    {
        let j = i + ws(s, i);
        if j >= len {
            return Ok(acc);
        }
        let (q, c) = query(s, j)?;
        if name_taken(&acc, &q.name) {
            return Err(ParseError { at: j, kind: ParseErrorKind::DuplicateQuery });
        }
        let ghost before = queries_view(acc@);
        let ghost qv = q@;
        acc.push(q);
        assert(queries_view(acc@) =~= before.push(qv));
        i = j + c;
    }
    assert(ws_len(s@, i as nat) == 0);
    Ok(acc)
}

/// Parses a unit of query declarations.
pub fn parse_queries(text: &str) -> (r: Result<Vec<Query>, ParseError>)
    ensures
        match r {
            Ok(qs) => parse_spec(text@) == Ok::<_, ParseError>(queries_view(qs@)),
            Err(e) => parse_spec(text@) == Err::<Seq<QuerySpec>, _>(e),
        },
        r matches Ok(qs) ==> unique_names(queries_view(qs@)),
{
    let s = chars_of(text);
    parse_chars(&s)
}

} // verus!
