//! The kind registry: a dense, contiguous enumeration of every lexical and
//! grammar category, with a reverse name lookup used for diagnostics.
//!
//! Every code lies in the single contiguous range
//! `[KIND_BASE, KIND_BASE + KIND_COUNT)`, assigned in declaration order with
//! no gaps; `kind_name` is defined exactly on that range.

use vstd::prelude::*;

verus! {

/// First code of the registry.
pub const KIND_BASE: u32 = 100;

// Trivia.
pub const TOKEN_COMMENT: u32 = 100;
pub const TOKEN_WHITESPACE: u32 = 101;
// Lexical errors are tokens too, so that no input byte is ever dropped.
pub const TOKEN_ERROR: u32 = 102;
// Literals and names.
pub const TOKEN_IDENT: u32 = 103;
pub const TOKEN_INTEGER: u32 = 104;
pub const TOKEN_FLOAT: u32 = 105;
pub const TOKEN_PATH: u32 = 106;
/// A complete single-line string with no embedded expressions.
pub const TOKEN_STRING: u32 = 107;
/// A single-line string boundary ending in an embedded-expression opener.
pub const TOKEN_STR_OPEN: u32 = 108;
/// A single-line string boundary between two embedded expressions.
pub const TOKEN_STR_MID: u32 = 109;
/// A single-line string boundary closing the string after an embedded expression.
pub const TOKEN_STR_CLOSE: u32 = 110;
/// A complete multi-line string with no embedded expressions.
pub const TOKEN_MSTRING: u32 = 111;
pub const TOKEN_MSTR_OPEN: u32 = 112;
pub const TOKEN_MSTR_MID: u32 = 113;
pub const TOKEN_MSTR_CLOSE: u32 = 114;
// Keywords.
pub const TOKEN_ASSERT: u32 = 115;
pub const TOKEN_ELSE: u32 = 116;
pub const TOKEN_IF: u32 = 117;
pub const TOKEN_IMPORT: u32 = 118;
pub const TOKEN_IN: u32 = 119;
pub const TOKEN_INHERIT: u32 = 120;
pub const TOKEN_LET: u32 = 121;
/// The keyword selecting a fallback for an indexed attribute access.
pub const TOKEN_OR_KW: u32 = 122;
pub const TOKEN_REC: u32 = 123;
/// The keyword that introduces the taken branch of a conditional.
pub const TOKEN_TAKEN_BRANCH: u32 = 124;
pub const TOKEN_WITH: u32 = 125;
// Punctuation.
pub const TOKEN_PAREN_OPEN: u32 = 126;
pub const TOKEN_PAREN_CLOSE: u32 = 127;
pub const TOKEN_CURLY_OPEN: u32 = 128;
pub const TOKEN_CURLY_CLOSE: u32 = 129;
pub const TOKEN_SQUARE_OPEN: u32 = 130;
pub const TOKEN_SQUARE_CLOSE: u32 = 131;
pub const TOKEN_ASSIGN: u32 = 132;
pub const TOKEN_SEMICOLON: u32 = 133;
pub const TOKEN_COLON: u32 = 134;
pub const TOKEN_COMMA: u32 = 135;
pub const TOKEN_DOT: u32 = 136;
pub const TOKEN_ELLIPSIS: u32 = 137;
pub const TOKEN_QUESTION: u32 = 138;
pub const TOKEN_AT: u32 = 139;
/// An embedded-expression opener outside a string: a dynamic attribute name.
pub const TOKEN_INTERPOL_START: u32 = 140;
// Operators.
pub const TOKEN_ADD: u32 = 141;
pub const TOKEN_SUB: u32 = 142;
pub const TOKEN_MUL: u32 = 143;
pub const TOKEN_DIV: u32 = 144;
pub const TOKEN_CONCAT: u32 = 145;
pub const TOKEN_UPDATE: u32 = 146;
pub const TOKEN_LESS: u32 = 147;
pub const TOKEN_LESS_OR_EQ: u32 = 148;
pub const TOKEN_MORE: u32 = 149;
pub const TOKEN_MORE_OR_EQ: u32 = 150;
pub const TOKEN_EQUAL: u32 = 151;
pub const TOKEN_NOT_EQUAL: u32 = 152;
pub const TOKEN_AND: u32 = 153;
pub const TOKEN_OR: u32 = 154;
pub const TOKEN_IMPLICATION: u32 = 155;
pub const TOKEN_NOT: u32 = 156;
/// End of input; carries the trailing trivia and an empty token text.
pub const TOKEN_EOF: u32 = 157;
/// A token the parser expected but did not find; its text is empty.
pub const TOKEN_MISSING: u32 = 158;
// Grammar productions.
pub const NODE_INTERPOL: u32 = 159;
pub const NODE_LAMBDA: u32 = 160;
pub const NODE_LIST: u32 = 161;
pub const NODE_PARENS: u32 = 162;
pub const NODE_SET: u32 = 163;
pub const NODE_VALUE: u32 = 164;
pub const NODE_VAR: u32 = 165;
pub const NODE_ASSERT: u32 = 166;
pub const NODE_IF_ELSE: u32 = 167;
pub const NODE_IMPORT: u32 = 168;
pub const NODE_LET: u32 = 169;
pub const NODE_LET_IN: u32 = 170;
pub const NODE_WITH: u32 = 171;
pub const NODE_APPLY: u32 = 172;
pub const NODE_DYNAMIC: u32 = 173;
pub const NODE_INDEX_SET: u32 = 174;
pub const NODE_OR_DEFAULT: u32 = 175;
pub const NODE_UNARY: u32 = 176;
pub const NODE_OPERATION: u32 = 177;
pub const NODE_ERROR: u32 = 178;

/// Number of registered kinds.
pub const KIND_COUNT: u32 = 79;

/// True exactly of the codes the registry assigns.
pub open spec fn kind_in_range(kind: u32) -> bool {
    KIND_BASE <= kind < KIND_BASE + KIND_COUNT
}

/// The display name of each registered code, in declaration order; the
/// reverse lookup returns exactly this.
pub open spec fn spec_kind_name(kind: u32) -> Option<&'static str> {
    match kind {
        TOKEN_COMMENT => Some("TOKEN_COMMENT"),
        TOKEN_WHITESPACE => Some("TOKEN_WHITESPACE"),
        TOKEN_ERROR => Some("TOKEN_ERROR"),
        TOKEN_IDENT => Some("TOKEN_IDENT"),
        TOKEN_INTEGER => Some("TOKEN_INTEGER"),
        TOKEN_FLOAT => Some("TOKEN_FLOAT"),
        TOKEN_PATH => Some("TOKEN_PATH"),
        TOKEN_STRING => Some("TOKEN_STRING"),
        TOKEN_STR_OPEN => Some("TOKEN_STR_OPEN"),
        TOKEN_STR_MID => Some("TOKEN_STR_MID"),
        TOKEN_STR_CLOSE => Some("TOKEN_STR_CLOSE"),
        TOKEN_MSTRING => Some("TOKEN_MSTRING"),
        TOKEN_MSTR_OPEN => Some("TOKEN_MSTR_OPEN"),
        TOKEN_MSTR_MID => Some("TOKEN_MSTR_MID"),
        TOKEN_MSTR_CLOSE => Some("TOKEN_MSTR_CLOSE"),
        TOKEN_ASSERT => Some("TOKEN_ASSERT"),
        TOKEN_ELSE => Some("TOKEN_ELSE"),
        TOKEN_IF => Some("TOKEN_IF"),
        TOKEN_IMPORT => Some("TOKEN_IMPORT"),
        TOKEN_IN => Some("TOKEN_IN"),
        TOKEN_INHERIT => Some("TOKEN_INHERIT"),
        TOKEN_LET => Some("TOKEN_LET"),
        TOKEN_OR_KW => Some("TOKEN_OR_KW"),
        TOKEN_REC => Some("TOKEN_REC"),
        TOKEN_TAKEN_BRANCH => Some("TOKEN_TAKEN_BRANCH"),
        TOKEN_WITH => Some("TOKEN_WITH"),
        TOKEN_PAREN_OPEN => Some("TOKEN_PAREN_OPEN"),
        TOKEN_PAREN_CLOSE => Some("TOKEN_PAREN_CLOSE"),
        TOKEN_CURLY_OPEN => Some("TOKEN_CURLY_OPEN"),
        TOKEN_CURLY_CLOSE => Some("TOKEN_CURLY_CLOSE"),
        TOKEN_SQUARE_OPEN => Some("TOKEN_SQUARE_OPEN"),
        TOKEN_SQUARE_CLOSE => Some("TOKEN_SQUARE_CLOSE"),
        TOKEN_ASSIGN => Some("TOKEN_ASSIGN"),
        TOKEN_SEMICOLON => Some("TOKEN_SEMICOLON"),
        TOKEN_COLON => Some("TOKEN_COLON"),
        TOKEN_COMMA => Some("TOKEN_COMMA"),
        TOKEN_DOT => Some("TOKEN_DOT"),
        TOKEN_ELLIPSIS => Some("TOKEN_ELLIPSIS"),
        TOKEN_QUESTION => Some("TOKEN_QUESTION"),
        TOKEN_AT => Some("TOKEN_AT"),
        TOKEN_INTERPOL_START => Some("TOKEN_INTERPOL_START"),
        TOKEN_ADD => Some("TOKEN_ADD"),
        TOKEN_SUB => Some("TOKEN_SUB"),
        TOKEN_MUL => Some("TOKEN_MUL"),
        TOKEN_DIV => Some("TOKEN_DIV"),
        TOKEN_CONCAT => Some("TOKEN_CONCAT"),
        TOKEN_UPDATE => Some("TOKEN_UPDATE"),
        TOKEN_LESS => Some("TOKEN_LESS"),
        TOKEN_LESS_OR_EQ => Some("TOKEN_LESS_OR_EQ"),
        TOKEN_MORE => Some("TOKEN_MORE"),
        TOKEN_MORE_OR_EQ => Some("TOKEN_MORE_OR_EQ"),
        TOKEN_EQUAL => Some("TOKEN_EQUAL"),
        TOKEN_NOT_EQUAL => Some("TOKEN_NOT_EQUAL"),
        TOKEN_AND => Some("TOKEN_AND"),
        TOKEN_OR => Some("TOKEN_OR"),
        TOKEN_IMPLICATION => Some("TOKEN_IMPLICATION"),
        TOKEN_NOT => Some("TOKEN_NOT"),
        TOKEN_EOF => Some("TOKEN_EOF"),
        TOKEN_MISSING => Some("TOKEN_MISSING"),
        NODE_INTERPOL => Some("NODE_INTERPOL"),
        NODE_LAMBDA => Some("NODE_LAMBDA"),
        NODE_LIST => Some("NODE_LIST"),
        NODE_PARENS => Some("NODE_PARENS"),
        NODE_SET => Some("NODE_SET"),
        NODE_VALUE => Some("NODE_VALUE"),
        NODE_VAR => Some("NODE_VAR"),
        NODE_ASSERT => Some("NODE_ASSERT"),
        NODE_IF_ELSE => Some("NODE_IF_ELSE"),
        NODE_IMPORT => Some("NODE_IMPORT"),
        NODE_LET => Some("NODE_LET"),
        NODE_LET_IN => Some("NODE_LET_IN"),
        NODE_WITH => Some("NODE_WITH"),
        NODE_APPLY => Some("NODE_APPLY"),
        NODE_DYNAMIC => Some("NODE_DYNAMIC"),
        NODE_INDEX_SET => Some("NODE_INDEX_SET"),
        NODE_OR_DEFAULT => Some("NODE_OR_DEFAULT"),
        NODE_UNARY => Some("NODE_UNARY"),
        NODE_OPERATION => Some("NODE_OPERATION"),
        NODE_ERROR => Some("NODE_ERROR"),
        _ => None,
    }
}

/// Reverse lookup from a kind code to its display name, for diagnostics:
/// exactly `spec_kind_name`, which is defined for every code in
/// `[KIND_BASE, KIND_BASE + KIND_COUNT)` and for no other code.
pub fn kind_name(kind: u32) -> (r: Option<&'static str>)
    ensures
        r == spec_kind_name(kind),
        r is Some <==> kind_in_range(kind),
{
    match kind {
        TOKEN_COMMENT => Some("TOKEN_COMMENT"),
        TOKEN_WHITESPACE => Some("TOKEN_WHITESPACE"),
        TOKEN_ERROR => Some("TOKEN_ERROR"),
        TOKEN_IDENT => Some("TOKEN_IDENT"),
        TOKEN_INTEGER => Some("TOKEN_INTEGER"),
        TOKEN_FLOAT => Some("TOKEN_FLOAT"),
        TOKEN_PATH => Some("TOKEN_PATH"),
        TOKEN_STRING => Some("TOKEN_STRING"),
        TOKEN_STR_OPEN => Some("TOKEN_STR_OPEN"),
        TOKEN_STR_MID => Some("TOKEN_STR_MID"),
        TOKEN_STR_CLOSE => Some("TOKEN_STR_CLOSE"),
        TOKEN_MSTRING => Some("TOKEN_MSTRING"),
        TOKEN_MSTR_OPEN => Some("TOKEN_MSTR_OPEN"),
        TOKEN_MSTR_MID => Some("TOKEN_MSTR_MID"),
        TOKEN_MSTR_CLOSE => Some("TOKEN_MSTR_CLOSE"),
        TOKEN_ASSERT => Some("TOKEN_ASSERT"),
        TOKEN_ELSE => Some("TOKEN_ELSE"),
        TOKEN_IF => Some("TOKEN_IF"),
        TOKEN_IMPORT => Some("TOKEN_IMPORT"),
        TOKEN_IN => Some("TOKEN_IN"),
        TOKEN_INHERIT => Some("TOKEN_INHERIT"),
        TOKEN_LET => Some("TOKEN_LET"),
        TOKEN_OR_KW => Some("TOKEN_OR_KW"),
        TOKEN_REC => Some("TOKEN_REC"),
        TOKEN_TAKEN_BRANCH => Some("TOKEN_TAKEN_BRANCH"),
        TOKEN_WITH => Some("TOKEN_WITH"),
        TOKEN_PAREN_OPEN => Some("TOKEN_PAREN_OPEN"),
        TOKEN_PAREN_CLOSE => Some("TOKEN_PAREN_CLOSE"),
        TOKEN_CURLY_OPEN => Some("TOKEN_CURLY_OPEN"),
        TOKEN_CURLY_CLOSE => Some("TOKEN_CURLY_CLOSE"),
        TOKEN_SQUARE_OPEN => Some("TOKEN_SQUARE_OPEN"),
        TOKEN_SQUARE_CLOSE => Some("TOKEN_SQUARE_CLOSE"),
        TOKEN_ASSIGN => Some("TOKEN_ASSIGN"),
        TOKEN_SEMICOLON => Some("TOKEN_SEMICOLON"),
        TOKEN_COLON => Some("TOKEN_COLON"),
        TOKEN_COMMA => Some("TOKEN_COMMA"),
        TOKEN_DOT => Some("TOKEN_DOT"),
        TOKEN_ELLIPSIS => Some("TOKEN_ELLIPSIS"),
        TOKEN_QUESTION => Some("TOKEN_QUESTION"),
        TOKEN_AT => Some("TOKEN_AT"),
        TOKEN_INTERPOL_START => Some("TOKEN_INTERPOL_START"),
        TOKEN_ADD => Some("TOKEN_ADD"),
        TOKEN_SUB => Some("TOKEN_SUB"),
        TOKEN_MUL => Some("TOKEN_MUL"),
        TOKEN_DIV => Some("TOKEN_DIV"),
        TOKEN_CONCAT => Some("TOKEN_CONCAT"),
        TOKEN_UPDATE => Some("TOKEN_UPDATE"),
        TOKEN_LESS => Some("TOKEN_LESS"),
        TOKEN_LESS_OR_EQ => Some("TOKEN_LESS_OR_EQ"),
        TOKEN_MORE => Some("TOKEN_MORE"),
        TOKEN_MORE_OR_EQ => Some("TOKEN_MORE_OR_EQ"),
        TOKEN_EQUAL => Some("TOKEN_EQUAL"),
        TOKEN_NOT_EQUAL => Some("TOKEN_NOT_EQUAL"),
        TOKEN_AND => Some("TOKEN_AND"),
        TOKEN_OR => Some("TOKEN_OR"),
        TOKEN_IMPLICATION => Some("TOKEN_IMPLICATION"),
        TOKEN_NOT => Some("TOKEN_NOT"),
        TOKEN_EOF => Some("TOKEN_EOF"),
        TOKEN_MISSING => Some("TOKEN_MISSING"),
        NODE_INTERPOL => Some("NODE_INTERPOL"),
        NODE_LAMBDA => Some("NODE_LAMBDA"),
        NODE_LIST => Some("NODE_LIST"),
        NODE_PARENS => Some("NODE_PARENS"),
        NODE_SET => Some("NODE_SET"),
        NODE_VALUE => Some("NODE_VALUE"),
        NODE_VAR => Some("NODE_VAR"),
        NODE_ASSERT => Some("NODE_ASSERT"),
        NODE_IF_ELSE => Some("NODE_IF_ELSE"),
        NODE_IMPORT => Some("NODE_IMPORT"),
        NODE_LET => Some("NODE_LET"),
        NODE_LET_IN => Some("NODE_LET_IN"),
        NODE_WITH => Some("NODE_WITH"),
        NODE_APPLY => Some("NODE_APPLY"),
        NODE_DYNAMIC => Some("NODE_DYNAMIC"),
        NODE_INDEX_SET => Some("NODE_INDEX_SET"),
        NODE_OR_DEFAULT => Some("NODE_OR_DEFAULT"),
        NODE_UNARY => Some("NODE_UNARY"),
        NODE_OPERATION => Some("NODE_OPERATION"),
        NODE_ERROR => Some("NODE_ERROR"),
        _ => None,
    }
}

} // verus!
