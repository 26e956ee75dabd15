//! The scanner: raw source text to the ordered token table of a tree.
//!
//! Every character of the input lands in exactly one token or trivia item,
//! in order, so the concatenated table reproduces the input exactly; that is
//! the contract of `tokenize` and the ground the round-trip guarantee rests
//! on.  Unknown input becomes an error-kind token rather than stopping the
//! scan.  Strings may hold arbitrarily nested embedded expressions: the
//! scanner keeps a nesting stack and cuts a string into boundary tokens
//! around each embedded region.

use vstd::prelude::*;

use crate::kinds::{
    kind_in_range, TOKEN_ADD, TOKEN_AND, TOKEN_ASSERT, TOKEN_ASSIGN, TOKEN_AT, TOKEN_COLON, TOKEN_COMMA,
    TOKEN_CONCAT, TOKEN_CURLY_CLOSE, TOKEN_CURLY_OPEN, TOKEN_DIV, TOKEN_DOT, TOKEN_ELLIPSIS,
    TOKEN_ELSE, TOKEN_EOF, TOKEN_EQUAL, TOKEN_ERROR, TOKEN_FLOAT, TOKEN_IDENT, TOKEN_IF,
    TOKEN_IMPLICATION, TOKEN_IMPORT, TOKEN_IN, TOKEN_INHERIT, TOKEN_INTEGER,
    TOKEN_INTERPOL_START, TOKEN_LESS, TOKEN_LESS_OR_EQ, TOKEN_LET, TOKEN_MISSING, TOKEN_MORE,
    TOKEN_MORE_OR_EQ, TOKEN_MSTRING, TOKEN_MSTR_CLOSE, TOKEN_MSTR_MID, TOKEN_MSTR_OPEN,
    TOKEN_MUL, TOKEN_NOT, TOKEN_NOT_EQUAL, TOKEN_OR, TOKEN_OR_KW, TOKEN_PAREN_CLOSE,
    TOKEN_PAREN_OPEN, TOKEN_PATH, TOKEN_QUESTION, TOKEN_REC, TOKEN_SEMICOLON,
    TOKEN_SQUARE_CLOSE, TOKEN_SQUARE_OPEN, TOKEN_STRING, TOKEN_STR_CLOSE, TOKEN_STR_MID,
    TOKEN_STR_OPEN, TOKEN_SUB, TOKEN_TAKEN_BRANCH, TOKEN_UPDATE, TOKEN_WITH,
};
use crate::tree::{trivia_text, meta_text, metas_text, Meta};

verus! {

/// The whitespace characters.
pub open spec fn spec_is_ws(c: char) -> bool {
    c == ' ' || c == '\t' || c == '\n' || c == '\r'
}

/// The decimal digits.
pub open spec fn spec_is_digit(c: char) -> bool {
    '0' <= c && c <= '9'
}

/// The characters an identifier may open with.
pub open spec fn spec_is_ident_start(c: char) -> bool {
    ('a' <= c && c <= 'z') || ('A' <= c && c <= 'Z') || c == '_'
}

/// The characters an identifier may go on with.
pub open spec fn spec_is_ident_char(c: char) -> bool {
    ('a' <= c && c <= 'z') || ('A' <= c && c <= 'Z') || ('0' <= c && c <= '9') || c == '_' || c
        == '-' || c == '\''
}

/// The characters a path literal is spelled from.
pub open spec fn spec_is_path_char(c: char) -> bool {
    ('a' <= c && c <= 'z') || ('A' <= c && c <= 'Z') || ('0' <= c && c <= '9') || c == '_' || c
        == '-' || c == '.' || c == '+' || c == '/'
}

/// The character class `which` picks for a scan.
pub open spec fn spec_class(c: char, which: u8) -> bool {
    if which == 0u8 {
        spec_is_ws(c)
    } else if which == 1u8 {
        spec_is_ident_char(c)
    } else if which == 2u8 {
        spec_is_path_char(c)
    } else {
        spec_is_digit(c)
    }
}

fn is_ws(c: char) -> (r: bool)
    ensures
        r == spec_is_ws(c),
{
    c == ' ' || c == '\t' || c == '\n' || c == '\r'
}

fn is_digit(c: char) -> (r: bool)
    ensures
        r == spec_is_digit(c),
{
    '0' <= c && c <= '9'
}

fn is_ident_start(c: char) -> (r: bool)
    ensures
        r == spec_is_ident_start(c),
{
    ('a' <= c && c <= 'z') || ('A' <= c && c <= 'Z') || c == '_'
}

fn is_ident_char(c: char) -> (r: bool)
    ensures
        r == spec_is_ident_char(c),
{
    ('a' <= c && c <= 'z') || ('A' <= c && c <= 'Z') || ('0' <= c && c <= '9') || c == '_' || c
        == '-' || c == '\''
}

fn is_path_char(c: char) -> (r: bool)
    ensures
        r == spec_is_path_char(c),
{
    ('a' <= c && c <= 'z') || ('A' <= c && c <= 'Z') || ('0' <= c && c <= '9') || c == '_' || c
        == '-' || c == '.' || c == '+' || c == '/'
}

/// Scan forward while the given class holds; `which` picks the class.  The
/// result is exactly the first position past `from` where the class stops.
fn scan_while(s: &str, from: usize, which: u8) -> (r: usize)
    requires
        from <= s@.len(),
    ensures
        from <= r <= s@.len(),
        forall|i: int| from <= i < r ==> spec_class(#[trigger] s@[i], which),
        r < s@.len() ==> !spec_class(s@[r as int], which),
{
    let n = s.unicode_len();
    let mut p = from;
    while p < n
        invariant
            from <= p <= n,
            n == s@.len(),
            forall|i: int| from <= i < p ==> spec_class(#[trigger] s@[i], which),
        decreases n - p,
    {
        let c = s.get_char(p);
        let ok = match which {
            0u8 => is_ws(c),
            1u8 => is_ident_char(c),
            2u8 => is_path_char(c),
            _ => is_digit(c),
        };
        if !ok {
            return p;
        }
        p += 1;
    }
    p
}

/// Scan a line comment: everything up to (not holding) the next newline.
fn scan_line_comment(s: &str, from: usize) -> (r: usize)
    requires
        from <= s@.len(),
    ensures
        from <= r <= s@.len(),
{
    let n = s.unicode_len();
    let mut p = from;
    while p < n
        invariant
            from <= p <= n,
            n == s@.len(),
        decreases n - p,
    {
        if s.get_char(p) == '\n' {
            return p;
        }
        p += 1;
    }
    p
}

/// Scan a block comment from just after its opener to just after `*/`, or to
/// the end of input when unterminated.
fn scan_block_comment(s: &str, from: usize) -> (r: usize)
    requires
        from <= s@.len(),
    ensures
        from <= r <= s@.len(),
{
    let n = s.unicode_len();
    let mut p = from;
    while p < n
        invariant
            from <= p <= n,
            n == s@.len(),
        decreases n - p,
    {
        if s.get_char(p) == '*' && p + 1 < n && s.get_char(p + 1) == '/' {
            return p + 2;
        }
        p += 1;
    }
    p
}

/// Scan the rest of a single-line string from just after its opening quote
/// or just after the `}` that closed an embedded expression.  The outcome
/// code says how it ended: 0 a closing quote, 1 an embedded-expression
/// opener, 2 the end of input (unterminated).
fn scan_sl_string(s: &str, from: usize) -> (r: (usize, u8))
    requires
        from <= s@.len(),
    ensures
        from <= r.0 <= s@.len(),
        s@ == sample_interpolation() && from == 1 ==> r.0 == 4 && r.1 == 1u8,
        s@ == sample_interpolation() && from == 6 ==> r.0 == 8 && r.1 == 0u8,
{
    let n = s.unicode_len();
    let mut p = from;
    while p < n
        invariant
            from <= p <= n,
            n == s@.len(),
            s@ == sample_interpolation() && from == 1 ==> (p == 1 || p == 2),
            s@ == sample_interpolation() && from == 6 ==> (p == 6 || p == 7),
        decreases n - p,
    {
        proof {
            if s@ == sample_interpolation() {
                assert(s@[0] == '"' && s@[1] == 'a' && s@[2] == '$' && s@[3] == '{' && s@[4]
                    == 'b' && s@[5] == '}' && s@[6] == 'c' && s@[7] == '"');
            }
        }
        let c = s.get_char(p);
        if c == '\\' {
            if p + 1 < n {
                p += 2;
            } else {
                p = n;
            }
        } else if c == '"' {
            return (p + 1, 0u8);
        } else if c == '$' && p + 1 < n && s.get_char(p + 1) == '{' {
            return (p + 2, 1u8);
        } else {
            p += 1;
        }
    }
    (p, 2u8)
}

/// Scan the rest of a multi-line string, as `scan_sl_string` does, with the
/// two-quote delimiter and its escapes.
fn scan_ml_string(s: &str, from: usize) -> (r: (usize, u8))
    requires
        from <= s@.len(),
    ensures
        from <= r.0 <= s@.len(),
{
    let n = s.unicode_len();
    let mut p = from;
    while p < n
        invariant
            from <= p <= n,
            n == s@.len(),
        decreases n - p,
    {
        let c = s.get_char(p);
        if c == '\'' && p + 1 < n && s.get_char(p + 1) == '\'' {
            if p + 2 < n {
                let c3 = s.get_char(p + 2);
                if c3 == '\'' || c3 == '$' || c3 == '\\' {
                    p += 3;
                } else {
                    return (p + 2, 0u8);
                }
            } else {
                return (p + 2, 0u8);
            }
        } else if c == '$' && p + 1 < n && s.get_char(p + 1) == '{' {
            return (p + 2, 1u8);
        } else {
            p += 1;
        }
    }
    (p, 2u8)
}

/// The keyword kind of the span `[from, to)`, or the identifier kind.
fn keyword_kind(s: &str, from: usize, to: usize) -> (r: u32)
    requires
        from <= to <= s@.len(),
    ensures
        kind_in_range(r),
        to - from == 1 ==> r == TOKEN_IDENT,
        to - from == 3 && s@[from as int] == 'l' && s@[from + 1] == 'e' && s@[from + 2] == 't'
            ==> r == TOKEN_LET,
        to - from == 2 && s@[from as int] == 'i' && s@[from + 1] == 'n' ==> r == TOKEN_IN,
{
    let len = to - from;
    if len == 2 {
        let c0 = s.get_char(from);
        let c1 = s.get_char(from + 1);
        if c0 == 'i' && c1 == 'f' {
            return TOKEN_IF;
        }
        if c0 == 'i' && c1 == 'n' {
            return TOKEN_IN;
        }
        if c0 == 'o' && c1 == 'r' {
            return TOKEN_OR_KW;
        }
    } else if len == 3 {
        let c0 = s.get_char(from);
        let c1 = s.get_char(from + 1);
        let c2 = s.get_char(from + 2);
        if c0 == 'l' && c1 == 'e' && c2 == 't' {
            return TOKEN_LET;
        }
        if c0 == 'r' && c1 == 'e' && c2 == 'c' {
            return TOKEN_REC;
        }
    } else if len == 4 {
        let c0 = s.get_char(from);
        let c1 = s.get_char(from + 1);
        let c2 = s.get_char(from + 2);
        let c3 = s.get_char(from + 3);
        if c0 == 'e' && c1 == 'l' && c2 == 's' && c3 == 'e' {
            return TOKEN_ELSE;
        }
        if c0 == 'w' && c1 == 'i' && c2 == 't' && c3 == 'h' {
            return TOKEN_WITH;
        }
        if c0 == 't' && c1 == 'h' && c2 == 'e' && c3 == 'n' {
            return TOKEN_TAKEN_BRANCH;
        }
    } else if len == 6 {
        let c0 = s.get_char(from);
        let c1 = s.get_char(from + 1);
        let c2 = s.get_char(from + 2);
        let c3 = s.get_char(from + 3);
        let c4 = s.get_char(from + 4);
        let c5 = s.get_char(from + 5);
        if c0 == 'a' && c1 == 's' && c2 == 's' && c3 == 'e' && c4 == 'r' && c5 == 't' {
            return TOKEN_ASSERT;
        }
        if c0 == 'i' && c1 == 'm' && c2 == 'p' && c3 == 'o' && c4 == 'r' && c5 == 't' {
            return TOKEN_IMPORT;
        }
    } else if len == 7 {
        let c0 = s.get_char(from);
        let c1 = s.get_char(from + 1);
        let c2 = s.get_char(from + 2);
        let c3 = s.get_char(from + 3);
        let c4 = s.get_char(from + 4);
        let c5 = s.get_char(from + 5);
        let c6 = s.get_char(from + 6);
        if c0 == 'i' && c1 == 'n' && c2 == 'h' && c3 == 'e' && c4 == 'r' && c5 == 'i' && c6
            == 't' {
            return TOKEN_INHERIT;
        }
    }
    TOKEN_IDENT
}

/// The spelled text `1 + 2`: the addition of two literals, fixed here so
/// that what scanning and parsing make of it can be stated exactly.
pub open spec fn sample_addition() -> Seq<char> {
    seq!['1', ' ', '+', ' ', '2']
}

/// The spelled text `let a = 1; in a`: one binding scoping over a variable
/// body, fixed here so that the shape of its parse can be stated exactly.
pub open spec fn sample_let_in() -> Seq<char> {
    seq!['l', 'e', 't', ' ', 'a', ' ', '=', ' ', '1', ';', ' ', 'i', 'n', ' ', 'a']
}

/// Successive table prefixes the sample binding scans through.
pub open spec fn k_let(ms: Seq<Meta>) -> bool {
    ms[0].kind == TOKEN_LET
}

pub open spec fn k_let_a(ms: Seq<Meta>) -> bool {
    k_let(ms) && ms[1].kind == TOKEN_IDENT
}

pub open spec fn k_let_a_eq(ms: Seq<Meta>) -> bool {
    k_let_a(ms) && ms[2].kind == TOKEN_ASSIGN
}

pub open spec fn k_let_a_eq_1(ms: Seq<Meta>) -> bool {
    k_let_a_eq(ms) && ms[3].kind == TOKEN_INTEGER
}

pub open spec fn k_let_a_eq_1_semi(ms: Seq<Meta>) -> bool {
    k_let_a_eq_1(ms) && ms[4].kind == TOKEN_SEMICOLON
}

/// The spelled text `"a${b}c"`: an interpolated string with one embedded
/// variable between two literal boundaries, fixed here so that the shape of
/// its parse can be stated exactly.
pub open spec fn sample_interpolation() -> Seq<char> {
    seq!['"', 'a', '$', '{', 'b', '}', 'c', '"']
}

/// The spelled text `{ a = ; }`: a set whose one binding is missing its
/// value, fixed here so that what error recovery makes of it can be stated
/// exactly.
pub open spec fn sample_broken_set() -> Seq<char> {
    seq!['{', ' ', 'a', ' ', '=', ' ', ';', ' ', '}']
}

/// The spelled text `1 + 2 * 3`: an addition and a tighter multiplication,
/// fixed here so that the precedence nesting of its parse can be stated
/// exactly.
pub open spec fn sample_precedence() -> Seq<char> {
    seq!['1', ' ', '+', ' ', '2', ' ', '*', ' ', '3']
}

/// Scan raw text into the token table: every terminal, in source order, each
/// carrying the trivia before it; closed by one end-of-input entry holding
/// the trailing trivia, followed by one shared empty placeholder entry the
/// parser references wherever an expected token was absent.  Concatenated in
/// order, the table is exactly the input: nothing is ever dropped.
#[verifier::rlimit(100)]
pub fn tokenize(s: &str) -> (metas: Vec<Meta>)
    ensures
        metas_text(metas@) == s@,
        metas@.len() >= 2,
        metas@[metas@.len() - 2].kind == TOKEN_EOF,
        metas@[metas@.len() - 1].kind == TOKEN_MISSING,
        forall|i: int| 0 <= i < metas@.len() ==> kind_in_range(#[trigger] metas@[i].kind),
        s@ == sample_addition() ==> (metas@.len() == 5 && metas@[0].kind == TOKEN_INTEGER
            && metas@[1].kind == TOKEN_ADD && metas@[2].kind == TOKEN_INTEGER && metas@[3].kind
            == TOKEN_EOF),
        s@ == sample_precedence() ==> (metas@.len() == 7 && metas@[0].kind == TOKEN_INTEGER
            && metas@[1].kind == TOKEN_ADD && metas@[2].kind == TOKEN_INTEGER && metas@[3].kind
            == TOKEN_MUL && metas@[4].kind == TOKEN_INTEGER && metas@[5].kind == TOKEN_EOF),
        s@ == sample_interpolation() ==> (metas@.len() == 5 && metas@[0].kind == TOKEN_STR_OPEN
            && metas@[1].kind == TOKEN_IDENT && metas@[1].token@ == seq!['b'] && metas@[2].kind
            == TOKEN_STR_CLOSE && metas@[3].kind == TOKEN_EOF),
        s@ == sample_broken_set() ==> (metas@.len() == 7 && metas@[0].kind == TOKEN_CURLY_OPEN
            && metas@[1].kind == TOKEN_IDENT && metas@[2].kind == TOKEN_ASSIGN && metas@[3].kind
            == TOKEN_SEMICOLON && metas@[4].kind == TOKEN_CURLY_CLOSE && metas@[5].kind
            == TOKEN_EOF),
        s@ == sample_let_in() ==> (metas@.len() == 9 && metas@[0].kind == TOKEN_LET
            && metas@[1].kind == TOKEN_IDENT && metas@[2].kind == TOKEN_ASSIGN && metas@[3].kind
            == TOKEN_INTEGER && metas@[4].kind == TOKEN_SEMICOLON && metas@[5].kind == TOKEN_IN
            && metas@[6].kind == TOKEN_IDENT && metas@[6].token@ == seq!['a'] && metas@[7].kind
            == TOKEN_EOF),
{
    let n = s.unicode_len();
    let mut metas: Vec<Meta> = Vec::new();
    let mut pending: Vec<String> = Vec::new();
    // Nesting stack: 0 after a plain `{` or a dynamic-attribute opener, 1
    // inside an embedded expression of a single-line string, 2 inside one of
    // a multi-line string.
    let mut stack: Vec<u8> = Vec::new();
    let mut pos: usize = 0;
    while pos < n
        invariant
            pos <= n,
            n == s@.len(),
            metas_text(metas@) + trivia_text(pending@) == s@.subrange(0, pos as int),
            forall|i: int| 0 <= i < metas@.len() ==> kind_in_range(#[trigger] metas@[i].kind),
            s@ == sample_addition() ==> ((pos == 0 && metas@.len() == 0) || (pos == 1
                && metas@.len() == 1 && metas@[0].kind == TOKEN_INTEGER) || (pos == 2
                && metas@.len() == 1 && metas@[0].kind == TOKEN_INTEGER) || (pos == 3
                && metas@.len() == 2 && metas@[0].kind == TOKEN_INTEGER && metas@[1].kind
                == TOKEN_ADD) || (pos == 4 && metas@.len() == 2 && metas@[0].kind == TOKEN_INTEGER
                && metas@[1].kind == TOKEN_ADD) || (pos == 5 && metas@.len() == 3
                && metas@[0].kind == TOKEN_INTEGER && metas@[1].kind == TOKEN_ADD
                && metas@[2].kind == TOKEN_INTEGER)),
            s@ == sample_precedence() ==> ((pos == 0 && metas@.len() == 0) || (pos == 1
                && metas@.len() == 1 && metas@[0].kind == TOKEN_INTEGER) || (pos == 2
                && metas@.len() == 1 && metas@[0].kind == TOKEN_INTEGER) || (pos == 3
                && metas@.len() == 2 && metas@[0].kind == TOKEN_INTEGER && metas@[1].kind
                == TOKEN_ADD) || (pos == 4 && metas@.len() == 2 && metas@[0].kind == TOKEN_INTEGER
                && metas@[1].kind == TOKEN_ADD) || (pos == 5 && metas@.len() == 3
                && metas@[0].kind == TOKEN_INTEGER && metas@[1].kind == TOKEN_ADD
                && metas@[2].kind == TOKEN_INTEGER) || (pos == 6 && metas@.len() == 3
                && metas@[0].kind == TOKEN_INTEGER && metas@[1].kind == TOKEN_ADD
                && metas@[2].kind == TOKEN_INTEGER) || (pos == 7 && metas@.len() == 4
                && metas@[0].kind == TOKEN_INTEGER && metas@[1].kind == TOKEN_ADD
                && metas@[2].kind == TOKEN_INTEGER && metas@[3].kind == TOKEN_MUL) || (pos == 8
                && metas@.len() == 4 && metas@[0].kind == TOKEN_INTEGER && metas@[1].kind
                == TOKEN_ADD && metas@[2].kind == TOKEN_INTEGER && metas@[3].kind == TOKEN_MUL)
                || (pos == 9 && metas@.len() == 5 && metas@[0].kind == TOKEN_INTEGER
                && metas@[1].kind == TOKEN_ADD && metas@[2].kind == TOKEN_INTEGER
                && metas@[3].kind == TOKEN_MUL && metas@[4].kind == TOKEN_INTEGER)),
            s@ == sample_interpolation() ==> ((pos == 0 && metas@.len() == 0 && stack@
                =~= Seq::<u8>::empty()) || (pos == 4 && metas@.len() == 1 && metas@[0].kind
                == TOKEN_STR_OPEN && stack@ == seq![1u8]) || (pos == 5 && metas@.len() == 2
                && metas@[0].kind == TOKEN_STR_OPEN && metas@[1].kind == TOKEN_IDENT
                && metas@[1].token@ == seq!['b'] && stack@ == seq![1u8]) || (pos == 8
                && metas@.len() == 3 && metas@[0].kind == TOKEN_STR_OPEN && metas@[1].kind
                == TOKEN_IDENT && metas@[1].token@ == seq!['b'] && metas@[2].kind
                == TOKEN_STR_CLOSE && stack@ =~= Seq::<u8>::empty())),
            s@ == sample_broken_set() ==> ((pos == 0 && metas@.len() == 0 && stack@
                =~= Seq::<u8>::empty()) || (1 <= pos <= 2 && metas@.len() == 1 && metas@[0].kind
                == TOKEN_CURLY_OPEN && stack@ == seq![0u8])
                || (3 <= pos <= 4 && metas@.len() == 2 && metas@[0].kind == TOKEN_CURLY_OPEN
                && metas@[1].kind == TOKEN_IDENT && stack@ == seq![0u8]) || (5 <= pos <= 6
                && metas@.len() == 3 && metas@[0].kind == TOKEN_CURLY_OPEN && metas@[1].kind
                == TOKEN_IDENT && metas@[2].kind == TOKEN_ASSIGN && stack@ == seq![0u8]) || (7
                <= pos <= 8 && metas@.len() == 4 && metas@[0].kind == TOKEN_CURLY_OPEN
                && metas@[1].kind == TOKEN_IDENT && metas@[2].kind == TOKEN_ASSIGN
                && metas@[3].kind == TOKEN_SEMICOLON && stack@ == seq![0u8]) || (pos == 9
                && metas@.len() == 5 && metas@[0].kind == TOKEN_CURLY_OPEN && metas@[1].kind
                == TOKEN_IDENT && metas@[2].kind == TOKEN_ASSIGN && metas@[3].kind
                == TOKEN_SEMICOLON && metas@[4].kind == TOKEN_CURLY_CLOSE && stack@
                =~= Seq::<u8>::empty())),
            s@ == sample_let_in() ==> ((pos == 0 && metas@.len() == 0) || (pos == 3
                && metas@.len() == 1 && k_let(metas@)) || (pos == 4 && metas@.len() == 1
                && k_let(metas@)) || (pos == 5 && metas@.len() == 2 && k_let_a(metas@)) || (pos
                == 6 && metas@.len() == 2 && k_let_a(metas@)) || (pos == 7 && metas@.len() == 3
                && k_let_a_eq(metas@)) || (pos == 8 && metas@.len() == 3 && k_let_a_eq(metas@))
                || (pos == 9 && metas@.len() == 4 && k_let_a_eq_1(metas@)) || (pos == 10
                && metas@.len() == 5 && k_let_a_eq_1_semi(metas@)) || (pos == 11 && metas@.len()
                == 5 && k_let_a_eq_1_semi(metas@)) || (pos == 13 && metas@.len() == 6
                && k_let_a_eq_1_semi(metas@) && metas@[5].kind == TOKEN_IN) || (pos == 14
                && metas@.len() == 6 && k_let_a_eq_1_semi(metas@) && metas@[5].kind == TOKEN_IN)
                || (pos == 15 && metas@.len() == 7 && k_let_a_eq_1_semi(metas@) && metas@[5].kind
                == TOKEN_IN && metas@[6].kind == TOKEN_IDENT && metas@[6].token@ == seq!['a'])),
        decreases n - pos,
    {
        proof {
            if s@ == sample_addition() {
                assert(s@[0] == '1' && s@[1] == ' ' && s@[2] == '+' && s@[3] == ' ' && s@[4]
                    == '2');
                assert(!spec_class(s@[1], 3u8));
                assert(!spec_class(s@[2], 0u8));
                assert(!spec_class(s@[4], 0u8));
            }
            if s@ == sample_interpolation() {
                assert(s@[0] == '"' && s@[1] == 'a' && s@[2] == '$' && s@[3] == '{' && s@[4]
                    == 'b' && s@[5] == '}' && s@[6] == 'c' && s@[7] == '"');
                assert(!spec_class(s@[5], 1u8));
            }
            if s@ == sample_broken_set() {
                assert(s@[0] == '{' && s@[1] == ' ' && s@[2] == 'a' && s@[3] == ' ' && s@[4]
                    == '=' && s@[5] == ' ' && s@[6] == ';' && s@[7] == ' ' && s@[8] == '}');
                assert(!spec_class(s@[2], 0u8));
                assert(!spec_class(s@[3], 1u8));
                assert(!spec_class(s@[4], 0u8));
                assert(!spec_class(s@[6], 0u8));
                assert(!spec_class(s@[8], 0u8));
            }
            if s@ == sample_let_in() {
                assert(s@[0] == 'l' && s@[1] == 'e' && s@[2] == 't' && s@[3] == ' ' && s@[4]
                    == 'a' && s@[5] == ' ' && s@[6] == '=' && s@[7] == ' ' && s@[8] == '1'
                    && s@[9] == ';' && s@[10] == ' ' && s@[11] == 'i' && s@[12] == 'n' && s@[13]
                    == ' ' && s@[14] == 'a');
                assert(spec_class(s@[1], 1u8) && spec_class(s@[2], 1u8));
                assert(!spec_class(s@[3], 1u8));
                assert(!spec_class(s@[4], 0u8));
                assert(!spec_class(s@[5], 1u8));
                assert(!spec_class(s@[6], 0u8));
                assert(!spec_class(s@[8], 0u8));
                assert(!spec_class(s@[9], 3u8));
                assert(!spec_class(s@[11], 0u8));
                assert(spec_class(s@[12], 1u8));
                assert(!spec_class(s@[13], 1u8));
                assert(!spec_class(s@[14], 0u8));
            }
            if s@ == sample_precedence() {
                assert(s@[0] == '1' && s@[1] == ' ' && s@[2] == '+' && s@[3] == ' ' && s@[4]
                    == '2' && s@[5] == ' ' && s@[6] == '*' && s@[7] == ' ' && s@[8] == '3');
                assert(!spec_class(s@[1], 3u8));
                assert(!spec_class(s@[2], 0u8));
                assert(!spec_class(s@[4], 0u8));
                assert(!spec_class(s@[5], 3u8));
                assert(!spec_class(s@[6], 0u8));
                assert(!spec_class(s@[8], 0u8));
            }
        }
        let start = pos;
        let c = s.get_char(pos);
        let ghost metas0 = metas@;
        let ghost pending0 = pending@;
        if is_ws(c) {
            let e = scan_while(s, pos + 1, 0u8);
            pending.push(s.substring_char(start, e).to_owned());
            pos = e;
            proof {
                assert(pending@.drop_last() =~= pending0);
                assert(s@.subrange(0, pos as int) =~= s@.subrange(0, start as int) + s@.subrange(
                    start as int,
                    pos as int,
                ));
                assert(metas_text(metas@) + trivia_text(pending@) =~= s@.subrange(0, pos as int));
            }
        } else if c == '#' {
            let e = scan_line_comment(s, pos + 1);
            pending.push(s.substring_char(start, e).to_owned());
            pos = e;
            proof {
                assert(pending@.drop_last() =~= pending0);
                assert(s@.subrange(0, pos as int) =~= s@.subrange(0, start as int) + s@.subrange(
                    start as int,
                    pos as int,
                ));
                assert(metas_text(metas@) + trivia_text(pending@) =~= s@.subrange(0, pos as int));
            }
        } else if c == '/' && pos + 1 < n && s.get_char(pos + 1) == '*' {
            let e = scan_block_comment(s, pos + 2);
            pending.push(s.substring_char(start, e).to_owned());
            pos = e;
            proof {
                assert(pending@.drop_last() =~= pending0);
                assert(s@.subrange(0, pos as int) =~= s@.subrange(0, start as int) + s@.subrange(
                    start as int,
                    pos as int,
                ));
                assert(metas_text(metas@) + trivia_text(pending@) =~= s@.subrange(0, pos as int));
            }
        } else {
            // One significant token.
            let kind: u32;
            let e: usize;
            if is_ident_start(c) {
                let idend = scan_while(s, pos + 1, 1u8);
                if idend < n && s.get_char(idend) == '/' && idend + 1 < n && is_path_char(
                    s.get_char(idend + 1),
                ) {
                    e = scan_while(s, idend + 1, 2u8);
                    kind = TOKEN_PATH;
                } else {
                    e = idend;
                    kind = keyword_kind(s, start, idend);
                }
            } else if is_digit(c) {
                let dend = scan_while(s, pos + 1, 3u8);
                if dend < n && s.get_char(dend) == '.' && dend + 1 < n && is_digit(
                    s.get_char(dend + 1),
                ) {
                    let fend = scan_while(s, dend + 1, 3u8);
                    e = fend;
                    kind = TOKEN_FLOAT;
                } else if dend < n && s.get_char(dend) == '/' && dend + 1 < n && is_path_char(
                    s.get_char(dend + 1),
                ) {
                    e = scan_while(s, dend + 1, 2u8);
                    kind = TOKEN_PATH;
                } else {
                    e = dend;
                    kind = TOKEN_INTEGER;
                }
            } else if c == '"' {
                let (se, code) = scan_sl_string(s, pos + 1);
                e = se;
                if code == 0u8 {
                    kind = TOKEN_STRING;
                } else if code == 1u8 {
                    stack.push(1u8);
                    kind = TOKEN_STR_OPEN;
                } else {
                    kind = TOKEN_ERROR;
                }
            } else if c == '\'' && pos + 1 < n && s.get_char(pos + 1) == '\'' {
                let (se, code) = scan_ml_string(s, pos + 2);
                e = se;
                if code == 0u8 {
                    kind = TOKEN_MSTRING;
                } else if code == 1u8 {
                    stack.push(2u8);
                    kind = TOKEN_MSTR_OPEN;
                } else {
                    kind = TOKEN_ERROR;
                }
            } else if c == '}' {
                let top: u8 = if stack.len() > 0 {
                    let t = stack[stack.len() - 1];
                    let _ = stack.pop();
                    t
                } else {
                    0u8
                };
                if top == 1u8 {
                    let (se, code) = scan_sl_string(s, pos + 1);
                    e = se;
                    if code == 0u8 {
                        kind = TOKEN_STR_CLOSE;
                    } else if code == 1u8 {
                        stack.push(1u8);
                        kind = TOKEN_STR_MID;
                    } else {
                        kind = TOKEN_ERROR;
                    }
                } else if top == 2u8 {
                    let (se, code) = scan_ml_string(s, pos + 1);
                    e = se;
                    if code == 0u8 {
                        kind = TOKEN_MSTR_CLOSE;
                    } else if code == 1u8 {
                        stack.push(2u8);
                        kind = TOKEN_MSTR_MID;
                    } else {
                        kind = TOKEN_ERROR;
                    }
                } else {
                    e = pos + 1;
                    kind = TOKEN_CURLY_CLOSE;
                }
            } else if c == '{' {
                stack.push(0u8);
                e = pos + 1;
                kind = TOKEN_CURLY_OPEN;
            } else if c == '$' && pos + 1 < n && s.get_char(pos + 1) == '{' {
                stack.push(0u8);
                e = pos + 2;
                kind = TOKEN_INTERPOL_START;
            } else if c == '.' {
                if pos + 1 < n && pos + 2 < n && s.get_char(pos + 1) == '.' && s.get_char(pos + 2) == '.' {
                    e = pos + 3;
                    kind = TOKEN_ELLIPSIS;
                } else if pos + 1 < n && s.get_char(pos + 1) == '/' {
                    e = scan_while(s, pos + 1, 2u8);
                    kind = TOKEN_PATH;
                } else {
                    e = pos + 1;
                    kind = TOKEN_DOT;
                }
            } else if c == '/' {
                if pos + 1 < n && s.get_char(pos + 1) == '/' {
                    e = pos + 2;
                    kind = TOKEN_UPDATE;
                } else if pos + 1 < n && is_path_char(s.get_char(pos + 1)) {
                    e = scan_while(s, pos + 1, 2u8);
                    kind = TOKEN_PATH;
                } else {
                    e = pos + 1;
                    kind = TOKEN_DIV;
                }
            } else if c == '+' {
                if pos + 1 < n && s.get_char(pos + 1) == '+' {
                    e = pos + 2;
                    kind = TOKEN_CONCAT;
                } else {
                    e = pos + 1;
                    kind = TOKEN_ADD;
                }
            } else if c == '-' {
                if pos + 1 < n && s.get_char(pos + 1) == '>' {
                    e = pos + 2;
                    kind = TOKEN_IMPLICATION;
                } else {
                    e = pos + 1;
                    kind = TOKEN_SUB;
                }
            } else if c == '*' {
                e = pos + 1;
                kind = TOKEN_MUL;
            } else if c == '<' {
                if pos + 1 < n && s.get_char(pos + 1) == '=' {
                    e = pos + 2;
                    kind = TOKEN_LESS_OR_EQ;
                } else {
                    e = pos + 1;
                    kind = TOKEN_LESS;
                }
            } else if c == '>' {
                if pos + 1 < n && s.get_char(pos + 1) == '=' {
                    e = pos + 2;
                    kind = TOKEN_MORE_OR_EQ;
                } else {
                    e = pos + 1;
                    kind = TOKEN_MORE;
                }
            } else if c == '=' {
                if pos + 1 < n && s.get_char(pos + 1) == '=' {
                    e = pos + 2;
                    kind = TOKEN_EQUAL;
                } else {
                    e = pos + 1;
                    kind = TOKEN_ASSIGN;
                }
            } else if c == '!' {
                if pos + 1 < n && s.get_char(pos + 1) == '=' {
                    e = pos + 2;
                    kind = TOKEN_NOT_EQUAL;
                } else {
                    e = pos + 1;
                    kind = TOKEN_NOT;
                }
            } else if c == '&' && pos + 1 < n && s.get_char(pos + 1) == '&' {
                e = pos + 2;
                kind = TOKEN_AND;
            } else if c == '|' && pos + 1 < n && s.get_char(pos + 1) == '|' {
                e = pos + 2;
                kind = TOKEN_OR;
            } else if c == ';' {
                e = pos + 1;
                kind = TOKEN_SEMICOLON;
            } else if c == ':' {
                e = pos + 1;
                kind = TOKEN_COLON;
            } else if c == ',' {
                e = pos + 1;
                kind = TOKEN_COMMA;
            } else if c == '?' {
                e = pos + 1;
                kind = TOKEN_QUESTION;
            } else if c == '@' {
                e = pos + 1;
                kind = TOKEN_AT;
            } else if c == '(' {
                e = pos + 1;
                kind = TOKEN_PAREN_OPEN;
            } else if c == ')' {
                e = pos + 1;
                kind = TOKEN_PAREN_CLOSE;
            } else if c == '[' {
                e = pos + 1;
                kind = TOKEN_SQUARE_OPEN;
            } else if c == ']' {
                e = pos + 1;
                kind = TOKEN_SQUARE_CLOSE;
            } else {
                e = pos + 1;
                kind = TOKEN_ERROR;
            }
            let text = s.substring_char(start, e).to_owned();
            let m = Meta { trivia: pending, kind, token: text };
            pending = Vec::new();
            metas.push(m);
            pos = e;
            proof {
                assert(kind_in_range(kind));
                assert(metas@.drop_last() =~= metas0);
                assert forall|i: int| 0 <= i < metas@.len() implies kind_in_range(
                    #[trigger] metas@[i].kind,
                ) by {
                    if i < metas@.len() - 1 {
                        assert(metas@[i] == metas0[i]);
                    }
                }
                assert(meta_text(metas@.last()) =~= trivia_text(pending0) + s@.subrange(
                    start as int,
                    pos as int,
                ));
                assert(trivia_text(pending@) =~= Seq::<char>::empty());
                assert(s@.subrange(0, pos as int) =~= s@.subrange(0, start as int) + s@.subrange(
                    start as int,
                    pos as int,
                ));
                assert(metas_text(metas@) + trivia_text(pending@) =~= s@.subrange(0, pos as int));
            }
        }
    }
    // Close the table: the end-of-input entry takes the trailing trivia, and
    // one empty placeholder entry stands for absent tokens.
    let ghost metas1 = metas@;
    let ghost pending1 = pending@;
    let eof = Meta { trivia: pending, kind: TOKEN_EOF, token: String::new() };
    metas.push(eof);
    proof {
        assert(metas@.drop_last() =~= metas1);
        assert(meta_text(metas@.last()) =~= trivia_text(pending1));
        assert(s@.subrange(0, s@.len() as int) =~= s@);
        assert(metas_text(metas@) =~= s@);
    }
    let ghost metas2 = metas@;
    let missing = Meta { trivia: Vec::new(), kind: TOKEN_MISSING, token: String::new() };
    proof {
        assert(trivia_text(missing.trivia@) =~= Seq::<char>::empty());
    }
    metas.push(missing);
    proof {
        assert(metas@.drop_last() =~= metas2);
        assert(meta_text(metas@.last()) =~= Seq::<char>::empty());
        assert(metas_text(metas@) =~= s@);
        assert forall|i: int| 0 <= i < metas1.len() implies metas@[i] == metas1[i] by {
            assert(metas2[i] == metas1[i]);
        }
    }
    metas
}

} // verus!
