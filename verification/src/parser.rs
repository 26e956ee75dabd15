//! The parser: the token table to a complete tree, whatever the input.
//!
//! Recursive descent over the statement-like forms with a precedence-climbing
//! loop for unary and binary operators; application binds tighter than every
//! operator and is left-associative.  A failed production becomes an error
//! node (or, in set and let bodies, an error entry) plus a diagnostic, and
//! parsing goes on with the remaining siblings; every recovery step consumes
//! at least one token, so parsing ends in time proportional to the input.
//! The parser never touches the token table, so the tree it hands back
//! serializes to exactly the text that was scanned.

use vstd::prelude::*;

use crate::kinds::{
    TOKEN_ADD, TOKEN_AND, TOKEN_ASSERT, TOKEN_ASSIGN, TOKEN_AT, TOKEN_COLON, TOKEN_COMMA,
    TOKEN_CONCAT, TOKEN_CURLY_CLOSE, TOKEN_CURLY_OPEN, TOKEN_DIV, TOKEN_DOT, TOKEN_ELLIPSIS,
    TOKEN_ELSE, TOKEN_EOF, TOKEN_EQUAL, TOKEN_FLOAT, TOKEN_IDENT, TOKEN_IF, TOKEN_IMPLICATION,
    TOKEN_IMPORT, TOKEN_IN, TOKEN_INHERIT, TOKEN_INTEGER, TOKEN_INTERPOL_START, TOKEN_LESS,
    TOKEN_LESS_OR_EQ, TOKEN_LET, TOKEN_MORE, TOKEN_MORE_OR_EQ, TOKEN_MSTRING, TOKEN_MSTR_CLOSE,
    TOKEN_MSTR_MID, TOKEN_MSTR_OPEN, TOKEN_MUL, TOKEN_NOT, TOKEN_NOT_EQUAL, TOKEN_OR,
    TOKEN_OR_KW, TOKEN_PAREN_CLOSE, TOKEN_PAREN_OPEN, TOKEN_PATH, TOKEN_QUESTION, TOKEN_REC,
    TOKEN_SEMICOLON, TOKEN_SQUARE_CLOSE, TOKEN_SQUARE_OPEN, TOKEN_STRING, TOKEN_STR_CLOSE,
    TOKEN_STR_MID, TOKEN_STR_OPEN, TOKEN_SUB, TOKEN_TAKEN_BRANCH, TOKEN_UPDATE, TOKEN_WITH,
};
use crate::tree::{
    AST, ASTType, Child, Diagnostic, InterpolPart, LambdaArg, Meta, MetaId, NodeId, PatBind,
    PatEntry, PathSeg, SegName, SetEntry, metas_text,
};

verus! {

/// The kinds that may open an expression.
pub open spec fn spec_starts_expr(k: u32) -> bool {
    k == TOKEN_IDENT || k == TOKEN_INTEGER || k == TOKEN_FLOAT || k == TOKEN_PATH || k
        == TOKEN_STRING || k == TOKEN_STR_OPEN || k == TOKEN_MSTRING || k == TOKEN_MSTR_OPEN || k
        == TOKEN_PAREN_OPEN || k == TOKEN_CURLY_OPEN || k == TOKEN_SQUARE_OPEN || k == TOKEN_REC
        || k == TOKEN_INTERPOL_START || k == TOKEN_LET || k == TOKEN_WITH || k == TOKEN_ASSERT
        || k == TOKEN_IF || k == TOKEN_IMPORT || k == TOKEN_SUB || k == TOKEN_NOT
}

/// True of the kinds that may open an expression.
fn starts_expr(k: u32) -> (r: bool)
    ensures
        r == spec_starts_expr(k),
        r ==> k != TOKEN_EOF,
{
    k == TOKEN_IDENT || k == TOKEN_INTEGER || k == TOKEN_FLOAT || k == TOKEN_PATH || k
        == TOKEN_STRING || k == TOKEN_STR_OPEN || k == TOKEN_MSTRING || k == TOKEN_MSTR_OPEN || k
        == TOKEN_PAREN_OPEN || k == TOKEN_CURLY_OPEN || k == TOKEN_SQUARE_OPEN || k == TOKEN_REC
        || k == TOKEN_INTERPOL_START || k == TOKEN_LET || k == TOKEN_WITH || k == TOKEN_ASSERT
        || k == TOKEN_IF || k == TOKEN_IMPORT || k == TOKEN_SUB || k == TOKEN_NOT
}

/// The kinds that may open an argument of a function application.
pub open spec fn spec_starts_app_arg(k: u32) -> bool {
    k == TOKEN_IDENT || k == TOKEN_INTEGER || k == TOKEN_FLOAT || k == TOKEN_PATH || k
        == TOKEN_STRING || k == TOKEN_STR_OPEN || k == TOKEN_MSTRING || k == TOKEN_MSTR_OPEN || k
        == TOKEN_PAREN_OPEN || k == TOKEN_CURLY_OPEN || k == TOKEN_SQUARE_OPEN || k == TOKEN_REC
        || k == TOKEN_INTERPOL_START
}

/// True of the kinds that may open an argument of a function application.
fn starts_app_arg(k: u32) -> (r: bool)
    ensures
        r == spec_starts_app_arg(k),
        r ==> k != TOKEN_EOF,
{
    k == TOKEN_IDENT || k == TOKEN_INTEGER || k == TOKEN_FLOAT || k == TOKEN_PATH || k
        == TOKEN_STRING || k == TOKEN_STR_OPEN || k == TOKEN_MSTRING || k == TOKEN_MSTR_OPEN || k
        == TOKEN_PAREN_OPEN || k == TOKEN_CURLY_OPEN || k == TOKEN_SQUARE_OPEN || k == TOKEN_REC
        || k == TOKEN_INTERPOL_START
}

/// The precedence level a binary-operator kind binds at, tightest first;
/// zero for a kind that is no binary operator.
pub open spec fn spec_op_level(k: u32) -> int {
    if k == TOKEN_MUL || k == TOKEN_DIV {
        1
    } else if k == TOKEN_ADD || k == TOKEN_SUB {
        2
    } else if k == TOKEN_CONCAT {
        3
    } else if k == TOKEN_LESS || k == TOKEN_LESS_OR_EQ || k == TOKEN_MORE || k == TOKEN_MORE_OR_EQ
        || k == TOKEN_QUESTION {
        4
    } else if k == TOKEN_EQUAL || k == TOKEN_NOT_EQUAL {
        5
    } else if k == TOKEN_AND || k == TOKEN_OR {
        6
    } else if k == TOKEN_IMPLICATION {
        7
    } else if k == TOKEN_UPDATE {
        8
    } else {
        0
    }
}

/// A binary-operator kind.
pub open spec fn is_binop_kind(k: u32) -> bool {
    spec_op_level(k) >= 1
}

/// A kind whose one terminal alone forms a literal value node.
pub open spec fn is_lit_kind(k: u32) -> bool {
    k == TOKEN_INTEGER || k == TOKEN_FLOAT || k == TOKEN_PATH
}

/// True of the operator kinds of one precedence level, tightest first.
fn level_op(level: u8, k: u32) -> (r: bool)
    ensures
        r == (is_binop_kind(k) && spec_op_level(k) == level as int),
        r ==> k != TOKEN_EOF,
{
    if level == 1 {
        k == TOKEN_MUL || k == TOKEN_DIV
    } else if level == 2 {
        k == TOKEN_ADD || k == TOKEN_SUB
    } else if level == 3 {
        k == TOKEN_CONCAT
    } else if level == 4 {
        k == TOKEN_LESS || k == TOKEN_LESS_OR_EQ || k == TOKEN_MORE || k == TOKEN_MORE_OR_EQ || k
            == TOKEN_QUESTION
    } else if level == 5 {
        k == TOKEN_EQUAL || k == TOKEN_NOT_EQUAL
    } else if level == 6 {
        k == TOKEN_AND || k == TOKEN_OR
    } else if level == 7 {
        k == TOKEN_IMPLICATION
    } else if level == 8 {
        k == TOKEN_UPDATE
    } else {
        false
    }
}

/// The weight a kind carries in bracket balancing.
pub open spec fn spec_bracket_weight(k: u32) -> int {
    if k == TOKEN_CURLY_OPEN || k == TOKEN_INTERPOL_START || k == TOKEN_STR_OPEN || k
        == TOKEN_MSTR_OPEN {
        1
    } else if k == TOKEN_CURLY_CLOSE || k == TOKEN_STR_CLOSE || k == TOKEN_MSTR_CLOSE {
        -1
    } else {
        0
    }
}

/// True of the kinds that open or close one bracket-like region, by weight.
fn bracket_weight(k: u32) -> (r: i8)
    ensures
        r as int == spec_bracket_weight(k),
{
    if k == TOKEN_CURLY_OPEN || k == TOKEN_INTERPOL_START || k == TOKEN_STR_OPEN || k
        == TOKEN_MSTR_OPEN {
        1i8
    } else if k == TOKEN_CURLY_CLOSE || k == TOKEN_STR_CLOSE || k == TOKEN_MSTR_CLOSE {
        -1i8
    } else {
        0i8
    }
}

/// The parsing state: the (never changed) token table, the cursor, the arena
/// being grown, and the diagnostics gathered so far.
pub struct Parser {
    pub metas: Vec<Meta>,
    pub pos: usize,
    pub arena: Vec<ASTType>,
    pub errors: Vec<Diagnostic>,
}

/// The kind of the token `i` places past the cursor.
pub open spec fn k_at(p: Parser, i: int) -> u32 {
    p.metas@[p.pos + i].kind
}

/// What parsing one literal builds: the cursor moves over the one terminal,
/// the arena gains exactly its value node, which is the result, and the
/// diagnostics are untouched.
pub open spec fn lit_one(pre: Parser, post: Parser, r: NodeId) -> bool {
    &&& post.pos == pre.pos + 1
    &&& post.arena@ == pre.arena@.push(ASTType::Value { meta: pre.pos })
    &&& r == pre.arena@.len()
    &&& post.errors@ == pre.errors@
}

/// What parsing `literal operator literal` builds: the cursor moves over the
/// three terminals, the arena gains the two value nodes and then the
/// operation over them, which is the result, and the diagnostics are
/// untouched.
pub open spec fn op_one(pre: Parser, post: Parser, r: NodeId) -> bool {
    &&& post.pos == pre.pos + 3
    &&& post.arena@ == pre.arena@.push(ASTType::Value { meta: pre.pos }).push(
        ASTType::Value { meta: (pre.pos + 2) as usize },
    ).push(
        ASTType::Operation {
            left: pre.arena@.len() as usize,
            op: (pre.pos + 1) as usize,
            right: (pre.arena@.len() + 1) as usize,
        },
    )
    &&& r == pre.arena@.len() + 2
    &&& post.errors@ == pre.errors@
}

/// A kind that cannot continue an expression at or below the given operator
/// level: it neither selects nor opens an application argument, and any
/// binary operator it spells binds looser.
pub open spec fn expr_ends(k: u32, level: int) -> bool {
    &&& k != TOKEN_DOT
    &&& !spec_starts_app_arg(k)
    &&& is_binop_kind(k) ==> spec_op_level(k) > level
}

/// The token `i` places past the cursor ends the expression at this level.
pub open spec fn atom_ends(p: Parser, i: int, level: int) -> bool {
    expr_ends(k_at(p, i), level)
}

/// The cursor stands on a literal that selection and application cannot
/// extend.
pub open spec fn lone_lit(p: Parser) -> bool {
    is_lit_kind(k_at(p, 0)) && k_at(p, 1) != TOKEN_DOT && !spec_starts_app_arg(k_at(p, 1))
}

/// The identifier spellings that denote scalar literals.
pub open spec fn is_scalar_text(s: Seq<char>) -> bool {
    s == seq!['t', 'r', 'u', 'e'] || s == seq!['f', 'a', 'l', 's', 'e'] || s == seq![
        'n',
        'u',
        'l',
        'l',
    ]
}

/// What parsing one identifier builds: the cursor moves over the one
/// terminal, the arena gains its variable-reference node (or its value node,
/// for the scalar spellings), which is the result, and the diagnostics are
/// untouched.
pub open spec fn var_one(pre: Parser, post: Parser, r: NodeId) -> bool {
    &&& post.pos == pre.pos + 1
    &&& post.arena@ == pre.arena@.push(
        if is_scalar_text(pre.metas@[pre.pos as int].token@) {
            ASTType::Value { meta: pre.pos }
        } else {
            ASTType::Var { meta: pre.pos }
        },
    )
    &&& r == pre.arena@.len()
    &&& post.errors@ == pre.errors@
}

/// `name = literal ;` stands at the cursor.
pub open spec fn simple_assign_at(p: Parser) -> bool {
    &&& k_at(p, 0) == TOKEN_IDENT
    &&& k_at(p, 1) == TOKEN_ASSIGN
    &&& is_lit_kind(k_at(p, 2))
    &&& k_at(p, 3) == TOKEN_SEMICOLON
}

/// The entry binds the one-segment path at `name_pos` to the node
/// `value_id`, with its terminals in source order.
pub open spec fn assign_entry_shape(e: SetEntry, name_pos: int, value_id: int) -> bool {
    e matches SetEntry::Assign { path, assign, value, semi } && path@ == seq![
        PathSeg { name: SegName::Ident(name_pos as usize), dot: None },
    ] && assign == name_pos + 1 && value == value_id && semi == name_pos + 3
}

/// What parsing `name = literal ;` builds: four terminals consumed, one
/// value node gained, the entry exactly that binding, no diagnostics.
pub open spec fn assign_one(pre: Parser, post: Parser, e: SetEntry) -> bool {
    &&& post.pos == pre.pos + 4
    &&& post.arena@ == pre.arena@.push(ASTType::Value { meta: (pre.pos + 2) as usize })
    &&& post.errors@ == pre.errors@
    &&& assign_entry_shape(e, pre.pos as int, pre.arena@.len() as int)
}

/// `name = ;` stands at the cursor: an assignment whose value is absent.
pub open spec fn broken_assign_at(p: Parser) -> bool {
    &&& k_at(p, 0) == TOKEN_IDENT
    &&& k_at(p, 1) == TOKEN_ASSIGN
    &&& k_at(p, 2) == TOKEN_SEMICOLON
}

/// What parsing it builds: no node, one diagnostic, and an error entry
/// holding the three swallowed terminals in source order.
pub open spec fn broken_assign_one(pre: Parser, post: Parser, e: SetEntry) -> bool {
    &&& post.pos == pre.pos + 3
    &&& post.arena@ == pre.arena@
    &&& post.errors@.len() == pre.errors@.len() + 1
    &&& (e matches SetEntry::Error { items } && items@ == seq![
        Child::Meta(pre.pos),
        Child::Meta((pre.pos + 1) as usize),
        Child::Meta((pre.pos + 2) as usize),
    ])
}

/// `{ name = ; }` stands at the cursor: a set whose one binding is broken.
pub open spec fn set_err_at(p: Parser) -> bool {
    &&& k_at(p, 0) == TOKEN_CURLY_OPEN
    &&& k_at(p, 1) == TOKEN_IDENT
    &&& k_at(p, 2) == TOKEN_ASSIGN
    &&& k_at(p, 3) == TOKEN_SEMICOLON
    &&& k_at(p, 4) == TOKEN_CURLY_CLOSE
}

/// What parsing it builds: the set node over exactly one error entry holding
/// the swallowed terminals, and one diagnostic recorded.
pub open spec fn set_err_one(pre: Parser, post: Parser, r: NodeId) -> bool {
    &&& post.pos == pre.pos + 5
    &&& post.errors@.len() == pre.errors@.len() + 1
    &&& post.arena@.len() == pre.arena@.len() + 1
    &&& post.arena@.subrange(0, pre.arena@.len() as int) == pre.arena@
    &&& (post.arena@[pre.arena@.len() as int] matches ASTType::AttrSet {
        recursive,
        open,
        values,
        close,
    } && recursive is None && open == pre.pos && close == pre.pos + 4 && values@.len() == 1 && (
    values@[0] matches SetEntry::Error { items } && items@ == seq![
        Child::Meta((pre.pos + 1) as usize),
        Child::Meta((pre.pos + 2) as usize),
        Child::Meta((pre.pos + 3) as usize),
    ]))
    &&& r == pre.arena@.len()
}

/// The broken set stands at the cursor and its closing brace is the last
/// token before the end of input.
pub open spec fn lone_set_err(p: Parser) -> bool {
    set_err_at(p) && p.pos + 5 == p.metas@.len() - 2
}

/// `let name = literal ; in name` stands at the cursor, the body identifier
/// spelling no scalar, and nothing after it extends the expression.
pub open spec fn let_in_simple_at(p: Parser) -> bool {
    &&& k_at(p, 0) == TOKEN_LET
    &&& k_at(p, 1) == TOKEN_IDENT
    &&& k_at(p, 2) == TOKEN_ASSIGN
    &&& is_lit_kind(k_at(p, 3))
    &&& k_at(p, 4) == TOKEN_SEMICOLON
    &&& k_at(p, 5) == TOKEN_IN
    &&& k_at(p, 6) == TOKEN_IDENT
    &&& !is_scalar_text(p.metas@[p.pos + 6].token@)
    &&& expr_ends(k_at(p, 7), 8)
    &&& k_at(p, 7) != TOKEN_COLON
    &&& k_at(p, 7) != TOKEN_AT
}

/// What parsing that simple let-in builds: the bound value, the body
/// variable, and over them the let-in node with its one entry.
pub open spec fn let_in_one(pre: Parser, post: Parser, r: NodeId) -> bool {
    let base = pre.arena@.len() as int;
    &&& post.pos == pre.pos + 7
    &&& post.errors@ == pre.errors@
    &&& post.arena@.len() == base + 3
    &&& post.arena@.subrange(0, base) == pre.arena@
    &&& post.arena@[base] == ASTType::Value { meta: (pre.pos + 3) as usize }
    &&& post.arena@[base + 1] == ASTType::Var { meta: (pre.pos + 6) as usize }
    &&& (post.arena@[base + 2] matches ASTType::LetIn { let_meta, values, in_meta, body }
        && let_meta == pre.pos && in_meta == pre.pos + 5 && body == base + 1 && values@.len() == 1
        && assign_entry_shape(values@[0], pre.pos + 1, base))
    &&& r == base + 2
}

/// A one-variable interpolated string stands at the cursor: an opening
/// boundary, one embedded identifier spelling no scalar, and the closing
/// boundary.
pub open spec fn interpol_at(p: Parser) -> bool {
    &&& k_at(p, 0) == TOKEN_STR_OPEN
    &&& k_at(p, 1) == TOKEN_IDENT
    &&& !is_scalar_text(p.metas@[p.pos + 1].token@)
    &&& k_at(p, 2) == TOKEN_STR_CLOSE
}

/// What parsing that string builds: the embedded variable, and over it the
/// interpolation node with its three parts in source order — the opening
/// boundary, the embedded expression, the closing boundary.
pub open spec fn interpol_one(pre: Parser, post: Parser, r: NodeId) -> bool {
    let base = pre.arena@.len() as int;
    &&& post.pos == pre.pos + 3
    &&& post.errors@ == pre.errors@
    &&& post.arena@.len() == base + 2
    &&& post.arena@.subrange(0, base) == pre.arena@
    &&& post.arena@[base] == ASTType::Var { meta: (pre.pos + 1) as usize }
    &&& (post.arena@[base + 1] matches ASTType::Interpol { multiline, parts } && !multiline
        && parts@.len() == 3 && (parts@[0] matches InterpolPart::Literal { meta, .. } && meta
        == pre.pos) && parts@[1] == (InterpolPart::Ast { node: base as usize }) && (parts@[2]
        matches InterpolPart::Literal { meta, .. } && meta == pre.pos + 2))
    &&& r == base + 1
}

/// `inherit ( name ) name name ;` stands at the cursor, the source spelling
/// no scalar.
pub open spec fn inherit_two_at(p: Parser) -> bool {
    &&& k_at(p, 0) == TOKEN_INHERIT
    &&& k_at(p, 1) == TOKEN_PAREN_OPEN
    &&& k_at(p, 2) == TOKEN_IDENT
    &&& !is_scalar_text(p.metas@[p.pos + 2].token@)
    &&& k_at(p, 3) == TOKEN_PAREN_CLOSE
    &&& k_at(p, 4) == TOKEN_IDENT
    &&& k_at(p, 5) == TOKEN_IDENT
    &&& k_at(p, 6) == TOKEN_SEMICOLON
}

/// What parsing that inherit clause builds: the parenthesized source becomes
/// a variable node, and the entry carries the source and exactly the two
/// inherited identifiers, in source order.
pub open spec fn inherit_two(pre: Parser, post: Parser, e: SetEntry) -> bool {
    let base = pre.arena@.len();
    &&& post.pos == pre.pos + 7
    &&& post.errors@ == pre.errors@
    &&& post.arena@ == pre.arena@.push(ASTType::Var { meta: (pre.pos + 2) as usize })
    &&& (e matches SetEntry::Inherit { inherit, from, idents, semi } && inherit == pre.pos && from
        == Some(((pre.pos + 1) as usize, base as usize, (pre.pos + 3) as usize)) && idents@
        == seq![(pre.pos + 4) as usize, (pre.pos + 5) as usize] && semi == pre.pos + 6)
}

/// The one-variable interpolated string at the cursor is not extended by
/// selection or application.
pub open spec fn lone_interpol(p: Parser) -> bool {
    interpol_at(p) && k_at(p, 3) != TOKEN_DOT && !spec_starts_app_arg(k_at(p, 3))
}

/// The cursor stands on an identifier that selection and application cannot
/// extend, and that opens no lambda.
pub open spec fn lone_var(p: Parser) -> bool {
    &&& k_at(p, 0) == TOKEN_IDENT
    &&& k_at(p, 1) != TOKEN_DOT
    &&& !spec_starts_app_arg(k_at(p, 1))
    &&& k_at(p, 1) != TOKEN_COLON
    &&& k_at(p, 1) != TOKEN_AT
}

/// The cursor stands on `literal op literal op literal`, closed by the end
/// of input or a binary operator looser than the given level.
pub open spec fn two_ops_at(p: Parser, level: int) -> bool {
    &&& is_lit_kind(k_at(p, 0))
    &&& is_binop_kind(k_at(p, 1))
    &&& spec_op_level(k_at(p, 1)) <= level
    &&& is_lit_kind(k_at(p, 2))
    &&& is_binop_kind(k_at(p, 3))
    &&& spec_op_level(k_at(p, 3)) <= level
    &&& is_lit_kind(k_at(p, 4))
    &&& atom_ends(p, 5, level)
}

/// What `literal op_a literal op_b literal` builds when the first operator
/// binds at least as tight as the second: the first operation is built over
/// the first two literals, and the second operation takes it as its left
/// operand — left association, and tighter binding wins.
pub open spec fn op_two_left(pre: Parser, post: Parser, r: NodeId) -> bool {
    let base = pre.arena@.len();
    &&& post.pos == pre.pos + 5
    &&& post.arena@ == pre.arena@.push(ASTType::Value { meta: pre.pos }).push(
        ASTType::Value { meta: (pre.pos + 2) as usize },
    ).push(
        ASTType::Operation {
            left: base as usize,
            op: (pre.pos + 1) as usize,
            right: (base + 1) as usize,
        },
    ).push(ASTType::Value { meta: (pre.pos + 4) as usize }).push(
        ASTType::Operation {
            left: (base + 2) as usize,
            op: (pre.pos + 3) as usize,
            right: (base + 3) as usize,
        },
    )
    &&& r == base + 4
    &&& post.errors@ == pre.errors@
}

/// What `literal op_a literal op_b literal` builds when the second operator
/// binds tighter: its operation is built first, over the last two literals,
/// and the first operation takes it as its right operand.
pub open spec fn op_two_right(pre: Parser, post: Parser, r: NodeId) -> bool {
    let base = pre.arena@.len();
    &&& post.pos == pre.pos + 5
    &&& post.arena@ == pre.arena@.push(ASTType::Value { meta: pre.pos }).push(
        ASTType::Value { meta: (pre.pos + 2) as usize },
    ).push(ASTType::Value { meta: (pre.pos + 4) as usize }).push(
        ASTType::Operation {
            left: (base + 1) as usize,
            op: (pre.pos + 3) as usize,
            right: (base + 2) as usize,
        },
    ).push(
        ASTType::Operation {
            left: base as usize,
            op: (pre.pos + 1) as usize,
            right: (base + 3) as usize,
        },
    )
    &&& r == base + 4
    &&& post.errors@ == pre.errors@
}

impl Parser {
    /// The cursor never passes the end-of-input entry, which the table
    /// always holds just before the shared placeholder entry.
    pub open spec fn inv(&self) -> bool {
        &&& self.metas@.len() >= 2
        &&& self.pos <= self.metas@.len() - 2
        &&& self.metas@[self.metas@.len() - 2].kind == TOKEN_EOF
    }

    /// The kind of the token at the cursor.
    fn peek_kind(&self) -> (k: u32)
        requires
            self.inv(),
        ensures
            k == self.metas@[self.pos as int].kind,
    {
        self.metas[self.pos].kind
    }

    /// The kind one token ahead, or the end-of-input kind past the end.
    fn peek_kind_1(&self) -> (k: u32)
        requires
            self.inv(),
        ensures
            k == if self.pos + 1 <= self.metas@.len() - 2 {
                self.metas@[self.pos + 1].kind
            } else {
                TOKEN_EOF
            },
    {
        let n = self.metas.len();
        if self.pos + 1 <= n - 2 {
            self.metas[self.pos + 1].kind
        } else {
            TOKEN_EOF
        }
    }

    /// The shared placeholder entry standing for an absent token.
    fn missing(&self) -> (r: MetaId)
        requires
            self.inv(),
    {
        self.metas.len() - 1
    }

    /// Consume the token at the cursor.  Never consumes the end of input.
    fn bump(&mut self) -> (r: MetaId)
        requires
            old(self).inv(),
            old(self).metas@[old(self).pos as int].kind != TOKEN_EOF,
        ensures
            final(self).inv(),
            final(self).metas@ == old(self).metas@,
            final(self).pos == old(self).pos + 1,
            final(self).arena@ == old(self).arena@,
            final(self).errors@ == old(self).errors@,
            r == old(self).pos,
    {
        let _table_len = self.metas.len();
        let r = self.pos;
        self.pos += 1;
        r
    }

    /// Record a diagnostic at the cursor.
    fn diag(&mut self, msg: &str)
        requires
            old(self).inv(),
        ensures
            final(self).inv(),
            final(self).metas@ == old(self).metas@,
            final(self).pos == old(self).pos,
            final(self).arena@ == old(self).arena@,
            final(self).errors@.len() == old(self).errors@.len() + 1,
    {
        let d = Diagnostic { message: msg.to_owned(), at: self.pos };
        self.errors.push(d);
    }

    /// Consume a token of the given kind, or record a diagnostic and hand
    /// back the placeholder entry (whose text is empty) in its place.
    fn expect(&mut self, kind: u32, msg: &str) -> (r: MetaId)
        requires
            old(self).inv(),
            kind != TOKEN_EOF,
        ensures
            final(self).inv(),
            final(self).metas@ == old(self).metas@,
            old(self).pos <= final(self).pos <= old(self).pos + 1,
            final(self).arena@ == old(self).arena@,
            old(self).metas@[old(self).pos as int].kind == kind ==> final(self).pos == old(self).pos + 1
                && final(self).errors@ == old(self).errors@ && r == old(self).pos,
    {
        if self.peek_kind() == kind {
            self.bump()
        } else {
            self.diag(msg);
            self.missing()
        }
    }

    /// Put a node into the arena and hand back its reference.
    fn push_node(&mut self, n: ASTType) -> (r: NodeId)
        requires
            old(self).inv(),
        ensures
            final(self).inv(),
            final(self).metas@ == old(self).metas@,
            final(self).pos == old(self).pos,
            final(self).arena@ == old(self).arena@.push(n),
            final(self).errors@ == old(self).errors@,
            r == old(self).arena@.len(),
            r < final(self).arena@.len(),
    {
        let r = self.arena.len();
        self.arena.push(n);
        r
    }

    /// Looking past the opening brace at the cursor: does the matching close
    /// lead into a lambda (a colon or a binding alias)?
    fn is_pattern_ahead(&self) -> (r: bool)
        requires
            self.inv(),
        ensures
            lone_set_err(*self) ==> !r,
    {
        let eof_at = self.metas.len() - 2;
        let mut q = self.pos + 1;
        let mut depth: usize = 1;
        while q < eof_at && depth > 0
            invariant
                self.inv(),
                q <= eof_at + 1,
                eof_at == self.metas@.len() - 2,
                depth <= q,
                lone_set_err(*self) ==> ((self.pos + 1 <= q <= self.pos + 4 && depth == 1) || (q
                    == self.pos + 5 && depth == 0)),
            decreases eof_at - q,
        {
            let w = bracket_weight(self.metas[q].kind);
            if w == 1i8 {
                depth += 1;
            } else if w == -1i8 {
                depth -= 1;
            }
            q += 1;
        }
        if depth == 0 && q <= eof_at {
            let k = self.metas[q].kind;
            k == TOKEN_COLON || k == TOKEN_AT
        } else {
            false
        }
    }

    /// Consume tokens up to and holding the next terminator, or up to the
    /// given stop kind or the end of input, gathering them for an error
    /// entry.
    fn consume_to_semi(&mut self, stop: u32, items: &mut Vec<Child>)
        requires
            old(self).inv(),
        ensures
            final(self).inv(),
            final(self).metas@ == old(self).metas@,
            old(self).pos <= final(self).pos,
            final(self).arena@ == old(self).arena@,
            (old(self).metas@[old(self).pos as int].kind != TOKEN_EOF && old(self).metas@[old(
                self,
            ).pos as int].kind != stop) ==> old(self).pos < final(self).pos,
            final(self).errors@ == old(self).errors@,
            old(self).metas@[old(self).pos as int].kind == TOKEN_SEMICOLON && stop
                != TOKEN_SEMICOLON ==> (final(self).pos == old(self).pos + 1 && final(items)@
                == old(items)@.push(Child::Meta(old(self).pos))),
    {
        loop
            invariant
                self.inv(),
                self.metas@ == old(self).metas@,
                old(self).pos <= self.pos,
                self.arena@ == old(self).arena@,
                self.errors@ == old(self).errors@,
                old(self).metas@[old(self).pos as int].kind == TOKEN_SEMICOLON && stop
                    != TOKEN_SEMICOLON ==> (self.pos == old(self).pos && items@ == old(items)@),
            decreases self.metas@.len() - self.pos,
        {
            let k = self.peek_kind();
            if k == TOKEN_EOF || k == stop {
                return ;
            }
            let m = self.bump();
            items.push(Child::Meta(m));
            if k == TOKEN_SEMICOLON {
                return ;
            }
        }
    }

    /// Parse a complete expression: the statement-like forms and lambdas
    /// here, everything else through the operator levels.
    pub fn parse_expr(&mut self) -> (r: NodeId)
        requires
            old(self).inv(),
        ensures
            final(self).inv(),
            final(self).metas@ == old(self).metas@,
            old(self).pos <= final(self).pos,
            old(self).arena@.len() <= final(self).arena@.len(),
            r < final(self).arena@.len(),
            old(self).metas@[old(self).pos as int].kind != TOKEN_EOF ==> old(self).pos < final(self).pos,
            is_lit_kind(k_at(*old(self), 0)) && atom_ends(*old(self), 1, 8) ==> lit_one(
                *old(self),
                *final(self),
                r,
            ),
            lone_var(*old(self)) && atom_ends(*old(self), 1, 8) ==> var_one(
                *old(self),
                *final(self),
                r,
            ),
            let_in_simple_at(*old(self)) ==> let_in_one(*old(self), *final(self), r),
            interpol_at(*old(self)) && atom_ends(*old(self), 3, 8) ==> interpol_one(
                *old(self),
                *final(self),
                r,
            ),
            lone_set_err(*old(self)) ==> set_err_one(*old(self), *final(self), r),
            is_lit_kind(k_at(*old(self), 0)) && is_binop_kind(k_at(*old(self), 1)) && is_lit_kind(
                k_at(*old(self), 2),
            ) && atom_ends(*old(self), 3, 8) ==> op_one(*old(self), *final(self), r),
            two_ops_at(*old(self), 8) && spec_op_level(k_at(*old(self), 1)) <= spec_op_level(
                k_at(*old(self), 3),
            ) ==> op_two_left(*old(self), *final(self), r),
            two_ops_at(*old(self), 8) && spec_op_level(k_at(*old(self), 3)) < spec_op_level(
                k_at(*old(self), 1),
            ) ==> op_two_right(*old(self), *final(self), r),
        decreases old(self).metas@.len() - old(self).pos, 30int,
    {
        let k = self.peek_kind();
        if k == TOKEN_IDENT && self.peek_kind_1() == TOKEN_COLON {
            // `name: body`
            let meta = self.bump();
            let colon = self.expect(TOKEN_COLON, "expected a colon");
            let body = self.parse_expr();
            self.push_node(ASTType::Lambda { arg: LambdaArg::Ident { meta }, colon, body })
        } else if k == TOKEN_IDENT && self.peek_kind_1() == TOKEN_AT {
            // `name @ { pattern }: body`
            let ident = self.bump();
            let at = self.expect(TOKEN_AT, "expected an alias marker");
            self.parse_pattern_lambda(Some(PatBind { at, ident, prefix: true }))
        } else if k == TOKEN_CURLY_OPEN && self.is_pattern_ahead() {
            self.parse_pattern_lambda(None)
        } else if k == TOKEN_LET {
            self.parse_let()
        } else if k == TOKEN_WITH {
            let with = self.bump();
            let namespace = self.parse_expr();
            let semi = self.expect(TOKEN_SEMICOLON, "expected a terminator");
            let body = self.parse_expr();
            self.push_node(ASTType::With { with, namespace, semi, body })
        } else if k == TOKEN_ASSERT {
            let assert_meta = self.bump();
            let condition = self.parse_expr();
            let semi = self.expect(TOKEN_SEMICOLON, "expected a terminator");
            let rest = self.parse_expr();
            self.push_node(ASTType::Assert { assert_meta, condition, semi, rest })
        } else if k == TOKEN_IF {
            let if_meta = self.bump();
            let condition = self.parse_expr();
            let taken_meta = self.expect(TOKEN_TAKEN_BRANCH, "expected the branch keyword");
            let taken_body = self.parse_expr();
            let else_meta = self.expect(TOKEN_ELSE, "expected the fallback keyword");
            let else_body = self.parse_expr();
            self.push_node(
                ASTType::IfElse {
                    if_meta,
                    condition,
                    taken_meta,
                    taken_body,
                    else_meta,
                    else_body,
                },
            )
        } else {
            self.parse_op(8u8)
        }
    }

    /// One operator precedence level, left-associative; level 0 is unary
    /// operators over function application.
    fn parse_op(&mut self, level: u8) -> (r: NodeId)
        requires
            old(self).inv(),
        ensures
            final(self).inv(),
            final(self).metas@ == old(self).metas@,
            old(self).pos <= final(self).pos,
            old(self).arena@.len() <= final(self).arena@.len(),
            r < final(self).arena@.len(),
            old(self).metas@[old(self).pos as int].kind != TOKEN_EOF ==> old(self).pos < final(self).pos,
            is_lit_kind(k_at(*old(self), 0)) && atom_ends(*old(self), 1, level as int) ==> lit_one(
                *old(self),
                *final(self),
                r,
            ),
            lone_var(*old(self)) && atom_ends(*old(self), 1, level as int) ==> var_one(
                *old(self),
                *final(self),
                r,
            ),
            interpol_at(*old(self)) && atom_ends(*old(self), 3, level as int) ==> interpol_one(
                *old(self),
                *final(self),
                r,
            ),
            lone_set_err(*old(self)) ==> set_err_one(*old(self), *final(self), r),
            is_lit_kind(k_at(*old(self), 0)) && is_binop_kind(k_at(*old(self), 1))
                && spec_op_level(k_at(*old(self), 1)) <= level as int && is_lit_kind(
                k_at(*old(self), 2),
            ) && atom_ends(*old(self), 3, level as int) ==> op_one(*old(self), *final(self), r),
            two_ops_at(*old(self), level as int) && spec_op_level(k_at(*old(self), 1))
                <= spec_op_level(k_at(*old(self), 3)) ==> op_two_left(*old(self), *final(self), r),
            two_ops_at(*old(self), level as int) && spec_op_level(k_at(*old(self), 3))
                < spec_op_level(k_at(*old(self), 1)) ==> op_two_right(*old(self), *final(self), r),
        decreases old(self).metas@.len() - old(self).pos, 13int + level as int,
    {
        if level == 0 {
            let k = self.peek_kind();
            if k == TOKEN_SUB || k == TOKEN_NOT {
                let op = self.bump();
                let value = self.parse_op(0u8);
                self.push_node(ASTType::Unary { op, value })
            } else {
                self.parse_apply()
            }
        } else {
            let mut left = self.parse_op(level - 1);
            loop
                invariant
                    level >= 1,
                    self.inv(),
                    self.metas@ == old(self).metas@,
                    old(self).pos <= self.pos,
                    old(self).arena@.len() <= self.arena@.len(),
                    left < self.arena@.len(),
                    old(self).metas@[old(self).pos as int].kind != TOKEN_EOF ==> old(self).pos
                        < self.pos,
                    is_lit_kind(k_at(*old(self), 0)) && atom_ends(*old(self), 1, level as int)
                        ==> lit_one(*old(self), *self, left),
                    lone_var(*old(self)) && atom_ends(*old(self), 1, level as int) ==> var_one(
                        *old(self),
                        *self,
                        left,
                    ),
                    interpol_at(*old(self)) && atom_ends(*old(self), 3, level as int)
                        ==> interpol_one(*old(self), *self, left),
                    lone_set_err(*old(self)) ==> set_err_one(*old(self), *self, left),
                    is_lit_kind(k_at(*old(self), 0)) && is_binop_kind(k_at(*old(self), 1))
                        && spec_op_level(k_at(*old(self), 1)) < level as int && is_lit_kind(
                        k_at(*old(self), 2),
                    ) && atom_ends(*old(self), 3, level as int) ==> op_one(
                        *old(self),
                        *self,
                        left,
                    ),
                    is_lit_kind(k_at(*old(self), 0)) && is_binop_kind(k_at(*old(self), 1))
                        && spec_op_level(k_at(*old(self), 1)) == level as int && is_lit_kind(
                        k_at(*old(self), 2),
                    ) && atom_ends(*old(self), 3, level as int) ==> (lit_one(
                        *old(self),
                        *self,
                        left,
                    ) || op_one(*old(self), *self, left)),
                    two_ops_at(*old(self), level as int) && spec_op_level(k_at(*old(self), 1))
                        <= spec_op_level(k_at(*old(self), 3)) && spec_op_level(
                        k_at(*old(self), 3),
                    ) < level as int ==> op_two_left(*old(self), *self, left),
                    two_ops_at(*old(self), level as int) && spec_op_level(k_at(*old(self), 1))
                        <= spec_op_level(k_at(*old(self), 3)) && spec_op_level(
                        k_at(*old(self), 3),
                    ) == level as int ==> ((spec_op_level(k_at(*old(self), 1)) == level as int
                        && lit_one(*old(self), *self, left)) || op_one(*old(self), *self, left)
                        || op_two_left(*old(self), *self, left)),
                    two_ops_at(*old(self), level as int) && spec_op_level(k_at(*old(self), 3))
                        < spec_op_level(k_at(*old(self), 1)) && spec_op_level(k_at(*old(self), 1))
                        < level as int ==> op_two_right(*old(self), *self, left),
                    two_ops_at(*old(self), level as int) && spec_op_level(k_at(*old(self), 3))
                        < spec_op_level(k_at(*old(self), 1)) && spec_op_level(k_at(*old(self), 1))
                        == level as int ==> (lit_one(*old(self), *self, left) || op_two_right(
                        *old(self),
                        *self,
                        left,
                    )),
                decreases self.metas@.len() - self.pos,
            {
                let k = self.peek_kind();
                if !level_op(level, k) {
                    return left;
                }
                let op = self.bump();
                let right = self.parse_op(level - 1);
                left = self.push_node(ASTType::Operation { left, op, right });
            }
        }
    }

    /// Function application: left-associative, tighter than every operator.
    fn parse_apply(&mut self) -> (r: NodeId)
        requires
            old(self).inv(),
        ensures
            final(self).inv(),
            final(self).metas@ == old(self).metas@,
            old(self).pos <= final(self).pos,
            old(self).arena@.len() <= final(self).arena@.len(),
            r < final(self).arena@.len(),
            old(self).metas@[old(self).pos as int].kind != TOKEN_EOF ==> old(self).pos < final(self).pos,
            lone_lit(*old(self)) ==> lit_one(*old(self), *final(self), r),
            lone_var(*old(self)) ==> var_one(*old(self), *final(self), r),
            lone_interpol(*old(self)) ==> interpol_one(*old(self), *final(self), r),
            lone_set_err(*old(self)) ==> set_err_one(*old(self), *final(self), r),
        decreases old(self).metas@.len() - old(self).pos, 12int,
    {
        let mut func = self.parse_select();
        loop
            invariant
                self.inv(),
                self.metas@ == old(self).metas@,
                old(self).pos <= self.pos,
                old(self).arena@.len() <= self.arena@.len(),
                func < self.arena@.len(),
                old(self).metas@[old(self).pos as int].kind != TOKEN_EOF ==> old(self).pos
                    < self.pos,
                lone_lit(*old(self)) ==> lit_one(*old(self), *self, func),
                lone_var(*old(self)) ==> var_one(*old(self), *self, func),
                lone_interpol(*old(self)) ==> interpol_one(*old(self), *self, func),
                lone_set_err(*old(self)) ==> set_err_one(*old(self), *self, func),
            decreases self.metas@.len() - self.pos,
        {
            let k = self.peek_kind();
            if !starts_app_arg(k) {
                return func;
            }
            let arg = self.parse_select();
            func = self.push_node(ASTType::Apply { func, arg });
        }
    }

    /// Indexed attribute access, with its optional fallback default.
    fn parse_select(&mut self) -> (r: NodeId)
        requires
            old(self).inv(),
        ensures
            final(self).inv(),
            final(self).metas@ == old(self).metas@,
            old(self).pos <= final(self).pos,
            old(self).arena@.len() <= final(self).arena@.len(),
            r < final(self).arena@.len(),
            old(self).metas@[old(self).pos as int].kind != TOKEN_EOF ==> old(self).pos < final(self).pos,
            lone_lit(*old(self)) ==> lit_one(*old(self), *final(self), r),
            lone_var(*old(self)) ==> var_one(*old(self), *final(self), r),
            lone_interpol(*old(self)) ==> interpol_one(*old(self), *final(self), r),
            lone_set_err(*old(self)) ==> set_err_one(*old(self), *final(self), r),
        decreases old(self).metas@.len() - old(self).pos, 11int,
    {
        let mut e = self.parse_primary();
        loop
            invariant
                self.inv(),
                self.metas@ == old(self).metas@,
                old(self).pos <= self.pos,
                old(self).arena@.len() <= self.arena@.len(),
                e < self.arena@.len(),
                old(self).metas@[old(self).pos as int].kind != TOKEN_EOF ==> old(self).pos
                    < self.pos,
                lone_lit(*old(self)) ==> lit_one(*old(self), *self, e),
                lone_var(*old(self)) ==> var_one(*old(self), *self, e),
                lone_interpol(*old(self)) ==> interpol_one(*old(self), *self, e),
                lone_set_err(*old(self)) ==> set_err_one(*old(self), *self, e),
            decreases self.metas@.len() - self.pos,
        {
            let k = self.peek_kind();
            if k != TOKEN_DOT {
                return e;
            }
            let dot = self.bump();
            let attr = self.parse_attr_name();
            let k2 = self.peek_kind();
            if k2 == TOKEN_OR_KW {
                let or = self.bump();
                let default = self.parse_primary();
                e = self.push_node(ASTType::OrDefault { indexed: e, dot, attr, or, default });
            } else {
                e = self.push_node(ASTType::IndexSet { indexed: e, dot, attr });
            }
        }
    }

    /// One attribute name after a dot: an identifier, a dynamic attribute,
    /// or a string; anything else is an error node consuming nothing.
    fn parse_attr_name(&mut self) -> (r: NodeId)
        requires
            old(self).inv(),
        ensures
            final(self).inv(),
            final(self).metas@ == old(self).metas@,
            old(self).pos <= final(self).pos,
            old(self).arena@.len() <= final(self).arena@.len(),
            r < final(self).arena@.len(),
        decreases old(self).metas@.len() - old(self).pos, 9int,
    {
        let k = self.peek_kind();
        if k == TOKEN_IDENT {
            let meta = self.bump();
            self.push_node(ASTType::Var { meta })
        } else if k == TOKEN_INTERPOL_START {
            self.parse_dynamic()
        } else if k == TOKEN_STRING || k == TOKEN_STR_OPEN || k == TOKEN_MSTRING || k
            == TOKEN_MSTR_OPEN {
            self.parse_interpol()
        } else {
            self.diag("expected an attribute name");
            let m = self.missing();
            let mut items: Vec<Child> = Vec::new();
            items.push(Child::Meta(m));
            self.push_node(ASTType::Error { items })
        }
    }

    /// A dynamic attribute name: an embedded expression used as a name.
    fn parse_dynamic(&mut self) -> (r: NodeId)
        requires
            old(self).inv(),
            old(self).metas@[old(self).pos as int].kind == TOKEN_INTERPOL_START,
        ensures
            final(self).inv(),
            final(self).metas@ == old(self).metas@,
            old(self).pos < final(self).pos,
            old(self).arena@.len() <= final(self).arena@.len(),
            r < final(self).arena@.len(),
        decreases old(self).metas@.len() - old(self).pos, 5int,
    {
        let open = self.bump();
        let inner = self.parse_expr();
        let close = self.expect(TOKEN_CURLY_CLOSE, "expected a closing brace");
        self.push_node(ASTType::Dynamic { open, inner, close })
    }

    /// The atoms, bracketed forms, sets, lists, the legacy and the ordinary
    /// let form, imports and strings; anything unexpected becomes an error
    /// node holding the offending token.
    fn parse_primary(&mut self) -> (r: NodeId)
        requires
            old(self).inv(),
        ensures
            final(self).inv(),
            final(self).metas@ == old(self).metas@,
            old(self).pos <= final(self).pos,
            old(self).arena@.len() <= final(self).arena@.len(),
            r < final(self).arena@.len(),
            old(self).metas@[old(self).pos as int].kind != TOKEN_EOF ==> old(self).pos < final(self).pos,
            is_lit_kind(k_at(*old(self), 0)) ==> lit_one(*old(self), *final(self), r),
            k_at(*old(self), 0) == TOKEN_IDENT ==> var_one(*old(self), *final(self), r),
            interpol_at(*old(self)) ==> interpol_one(*old(self), *final(self), r),
            lone_set_err(*old(self)) ==> set_err_one(*old(self), *final(self), r),
        decreases old(self).metas@.len() - old(self).pos, 10int,
    {
        let k = self.peek_kind();
        if k == TOKEN_INTEGER || k == TOKEN_FLOAT || k == TOKEN_PATH {
            let meta = self.bump();
            self.push_node(ASTType::Value { meta })
        } else if k == TOKEN_IDENT {
            let meta = self.bump();
            if is_scalar_word(&self.metas[meta].token) {
                self.push_node(ASTType::Value { meta })
            } else {
                self.push_node(ASTType::Var { meta })
            }
        } else if k == TOKEN_STRING || k == TOKEN_STR_OPEN || k == TOKEN_MSTRING || k
            == TOKEN_MSTR_OPEN {
            self.parse_interpol()
        } else if k == TOKEN_PAREN_OPEN {
            let open = self.bump();
            let inner = self.parse_expr();
            let close = self.expect(TOKEN_PAREN_CLOSE, "expected a closing parenthesis");
            self.push_node(ASTType::Parens { open, inner, close })
        } else if k == TOKEN_SQUARE_OPEN {
            let open = self.bump();
            let mut items: Vec<NodeId> = Vec::new();
            loop
                invariant
                    self.inv(),
                    self.metas@ == old(self).metas@,
                    old(self).pos < self.pos,
                    old(self).arena@.len() <= self.arena@.len(),
                    forall|i: int| 0 <= i < items@.len() ==> items@[i] < self.arena@.len(),
                decreases self.metas@.len() - self.pos,
            {
                let k2 = self.peek_kind();
                if !starts_app_arg(k2) {
                    break ;
                }
                let item = self.parse_select();
                items.push(item);
            }
            let close = self.expect(TOKEN_SQUARE_CLOSE, "expected a closing bracket");
            self.push_node(ASTType::List { open, items, close })
        } else if k == TOKEN_CURLY_OPEN {
            if self.is_pattern_ahead() {
                self.parse_pattern_lambda(None)
            } else {
                self.parse_set(None)
            }
        } else if k == TOKEN_REC {
            let rec = self.bump();
            self.parse_set(Some(rec))
        } else if k == TOKEN_INTERPOL_START {
            self.parse_dynamic()
        } else if k == TOKEN_IMPORT {
            let meta = self.bump();
            let path = self.parse_select();
            self.push_node(ASTType::Import { meta, path })
        } else if k == TOKEN_LET {
            self.parse_let()
        } else if k == TOKEN_WITH {
            let with = self.bump();
            let namespace = self.parse_expr();
            let semi = self.expect(TOKEN_SEMICOLON, "expected a terminator");
            let body = self.parse_expr();
            self.push_node(ASTType::With { with, namespace, semi, body })
        } else if k == TOKEN_ASSERT {
            let assert_meta = self.bump();
            let condition = self.parse_expr();
            let semi = self.expect(TOKEN_SEMICOLON, "expected a terminator");
            let rest = self.parse_expr();
            self.push_node(ASTType::Assert { assert_meta, condition, semi, rest })
        } else if k == TOKEN_IF {
            let if_meta = self.bump();
            let condition = self.parse_expr();
            let taken_meta = self.expect(TOKEN_TAKEN_BRANCH, "expected the branch keyword");
            let taken_body = self.parse_expr();
            let else_meta = self.expect(TOKEN_ELSE, "expected the fallback keyword");
            let else_body = self.parse_expr();
            self.push_node(
                ASTType::IfElse {
                    if_meta,
                    condition,
                    taken_meta,
                    taken_body,
                    else_meta,
                    else_body,
                },
            )
        } else if k == TOKEN_EOF {
            self.diag("expected an expression");
            let m = self.missing();
            let mut items: Vec<Child> = Vec::new();
            items.push(Child::Meta(m));
            self.push_node(ASTType::Error { items })
        } else {
            self.diag("unexpected token");
            let m = self.bump();
            let mut items: Vec<Child> = Vec::new();
            items.push(Child::Meta(m));
            self.push_node(ASTType::Error { items })
        }
    }

    /// A set `{ ... }`, optionally recursive; the opening brace is at the
    /// cursor when `recursive` is absent.
    fn parse_set(&mut self, recursive: Option<MetaId>) -> (r: NodeId)
        requires
            old(self).inv(),
        ensures
            final(self).inv(),
            final(self).metas@ == old(self).metas@,
            old(self).pos <= final(self).pos,
            old(self).arena@.len() <= final(self).arena@.len(),
            r < final(self).arena@.len(),
            old(self).metas@[old(self).pos as int].kind == TOKEN_CURLY_OPEN ==> old(self).pos
                < final(self).pos,
            recursive is None && set_err_at(*old(self)) ==> set_err_one(
                *old(self),
                *final(self),
                r,
            ),
        decreases old(self).metas@.len() - old(self).pos, 8int,
    {
        let open = self.expect(TOKEN_CURLY_OPEN, "expected an opening brace");
        let values = self.parse_entries(TOKEN_CURLY_CLOSE);
        let close = self.expect(TOKEN_CURLY_CLOSE, "expected a closing brace");
        let r = self.push_node(ASTType::AttrSet { recursive, open, values, close });
        proof {
            if set_err_at(*old(self)) {
                assert(self.arena@.subrange(0, old(self).arena@.len() as int) =~= old(
                    self,
                ).arena@);
            }
        }
        r
    }

    /// The two let forms: the legacy braced one and `let ... in body`.
    fn parse_let(&mut self) -> (r: NodeId)
        requires
            old(self).inv(),
            old(self).metas@[old(self).pos as int].kind == TOKEN_LET,
        ensures
            final(self).inv(),
            final(self).metas@ == old(self).metas@,
            old(self).pos < final(self).pos,
            old(self).arena@.len() <= final(self).arena@.len(),
            r < final(self).arena@.len(),
            let_in_simple_at(*old(self)) ==> let_in_one(*old(self), *final(self), r),
        decreases old(self).metas@.len() - old(self).pos, 8int,
    {
        let let_meta = self.bump();
        if self.peek_kind() == TOKEN_CURLY_OPEN {
            let open = self.bump();
            let values = self.parse_entries(TOKEN_CURLY_CLOSE);
            let close = self.expect(TOKEN_CURLY_CLOSE, "expected a closing brace");
            self.push_node(ASTType::Let { let_meta, open, values, close })
        } else {
            let values = self.parse_entries(TOKEN_IN);
            let in_meta = self.expect(TOKEN_IN, "expected the binding keyword");
            let body = self.parse_expr();
            let r = self.push_node(ASTType::LetIn { let_meta, values, in_meta, body });
            proof {
                if let_in_simple_at(*old(self)) {
                    let base = old(self).arena@.len() as int;
                    assert(self.arena@.subrange(0, base) =~= old(self).arena@);
                    assert(self.arena@[base] == ASTType::Value {
                        meta: (old(self).pos + 3) as usize,
                    });
                    assert(self.arena@[base + 1] == ASTType::Var {
                        meta: (old(self).pos + 6) as usize,
                    });
                }
            }
            r
        }
    }

    /// The entries of a set or let body, up to the stop kind or the end of
    /// input.  A malformed entry becomes an error entry and parsing goes on
    /// with the remaining siblings.
    fn parse_entries(&mut self, stop: u32) -> (r: Vec<SetEntry>)
        requires
            old(self).inv(),
        ensures
            final(self).inv(),
            final(self).metas@ == old(self).metas@,
            old(self).pos <= final(self).pos,
            old(self).arena@.len() <= final(self).arena@.len(),
            simple_assign_at(*old(self)) && k_at(*old(self), 4) == stop && stop != TOKEN_IDENT
                ==> (final(self).pos == old(self).pos + 4 && final(self).arena@
                == old(self).arena@.push(ASTType::Value { meta: (old(self).pos + 2) as usize })
                && final(self).errors@ == old(self).errors@ && r@.len() == 1
                && assign_entry_shape(
                r@[0],
                old(self).pos as int,
                old(self).arena@.len() as int,
            )),
            broken_assign_at(*old(self)) && k_at(*old(self), 3) == stop && stop != TOKEN_IDENT
                && stop != TOKEN_SEMICOLON ==> (final(self).pos == old(self).pos + 3 && final(self).arena@
                == old(self).arena@ && final(self).errors@.len() == old(self).errors@.len()
                + 1 && r@.len() == 1 && (r@[0] matches SetEntry::Error { items } && items@
                == seq![
                Child::Meta(old(self).pos),
                Child::Meta((old(self).pos + 1) as usize),
                Child::Meta((old(self).pos + 2) as usize),
            ])),
        decreases old(self).metas@.len() - old(self).pos, 7int,
    {
        let mut values: Vec<SetEntry> = Vec::new();
        loop
            invariant
                self.inv(),
                self.metas@ == old(self).metas@,
                old(self).pos <= self.pos,
                old(self).arena@.len() <= self.arena@.len(),
                simple_assign_at(*old(self)) && k_at(*old(self), 4) == stop && stop
                    != TOKEN_IDENT ==> ((self.pos == old(self).pos && values@.len() == 0
                    && self.arena@ == old(self).arena@ && self.errors@ == old(self).errors@) || (
                self.pos == old(self).pos + 4 && self.arena@ == old(self).arena@.push(
                    ASTType::Value { meta: (old(self).pos + 2) as usize },
                ) && self.errors@ == old(self).errors@ && values@.len() == 1
                    && assign_entry_shape(
                    values@[0],
                    old(self).pos as int,
                    old(self).arena@.len() as int,
                ))),
                broken_assign_at(*old(self)) && k_at(*old(self), 3) == stop && stop
                    != TOKEN_IDENT && stop != TOKEN_SEMICOLON ==> ((self.pos == old(self).pos
                    && values@.len() == 0 && self.arena@ == old(self).arena@ && self.errors@
                    == old(self).errors@) || (self.pos == old(self).pos + 3 && self.arena@ == old(
                    self,
                ).arena@ && self.errors@.len() == old(self).errors@.len() + 1 && values@.len()
                    == 1 && (values@[0] matches SetEntry::Error { items } && items@ == seq![
                    Child::Meta(old(self).pos),
                    Child::Meta((old(self).pos + 1) as usize),
                    Child::Meta((old(self).pos + 2) as usize),
                ]))),
            decreases self.metas@.len() - self.pos,
        {
            let k = self.peek_kind();
            if k == TOKEN_EOF || k == stop {
                return values;
            }
            let e = self.parse_entry(stop);
            values.push(e);
        }
    }

    /// One set entry: an inherit clause, an assignment, or an error entry.
    fn parse_entry(&mut self, stop: u32) -> (r: SetEntry)
        requires
            old(self).inv(),
            old(self).metas@[old(self).pos as int].kind != TOKEN_EOF,
            old(self).metas@[old(self).pos as int].kind != stop,
        ensures
            final(self).inv(),
            final(self).metas@ == old(self).metas@,
            old(self).pos < final(self).pos,
            old(self).arena@.len() <= final(self).arena@.len(),
            simple_assign_at(*old(self)) ==> assign_one(*old(self), *final(self), r),
            inherit_two_at(*old(self)) ==> inherit_two(*old(self), *final(self), r),
            broken_assign_at(*old(self)) && stop != TOKEN_SEMICOLON ==> broken_assign_one(
                *old(self),
                *final(self),
                r,
            ),
        decreases old(self).metas@.len() - old(self).pos, 6int,
    {
        let k = self.peek_kind();
        if k == TOKEN_INHERIT {
            let inherit = self.bump();
            let from: Option<(MetaId, NodeId, MetaId)>;
            if self.peek_kind() == TOKEN_PAREN_OPEN {
                let open = self.bump();
                let inner = self.parse_expr();
                let close = self.expect(TOKEN_PAREN_CLOSE, "expected a closing parenthesis");
                from = Some((open, inner, close));
            } else {
                from = None;
            }
            let mut idents: Vec<MetaId> = Vec::new();
            loop
                invariant
                    self.inv(),
                    self.metas@ == old(self).metas@,
                    old(self).pos < self.pos,
                    old(self).arena@.len() <= self.arena@.len(),
                    inherit_two_at(*old(self)) ==> (self.errors@ == old(self).errors@
                        && self.arena@ == old(self).arena@.push(
                        ASTType::Var { meta: (old(self).pos + 2) as usize },
                    ) && ((self.pos == old(self).pos + 4 && idents@ =~= Seq::<MetaId>::empty())
                        || (self.pos == old(self).pos + 5 && idents@ == seq![
                        (old(self).pos + 4) as usize,
                    ]) || (self.pos == old(self).pos + 6 && idents@ == seq![
                        (old(self).pos + 4) as usize,
                        (old(self).pos + 5) as usize,
                    ]))),
                ensures
                    inherit_two_at(*old(self)) ==> (self.pos == old(self).pos + 6 && idents@
                        == seq![(old(self).pos + 4) as usize, (old(self).pos + 5) as usize]
                        && self.errors@ == old(self).errors@ && self.arena@ == old(
                        self,
                    ).arena@.push(ASTType::Var { meta: (old(self).pos + 2) as usize })),
                decreases self.metas@.len() - self.pos,
            {
                if self.peek_kind() != TOKEN_IDENT {
                    break ;
                }
                let m = self.bump();
                idents.push(m);
            }
            let semi = self.expect(TOKEN_SEMICOLON, "expected a terminator");
            SetEntry::Inherit { inherit, from, idents, semi }
        } else if k == TOKEN_IDENT || k == TOKEN_INTERPOL_START || k == TOKEN_STRING || k
            == TOKEN_STR_OPEN || k == TOKEN_MSTRING || k == TOKEN_MSTR_OPEN {
            // An assignment: attribute path, `=`, value, terminator.
            let mut path: Vec<PathSeg> = Vec::new();
            loop
                invariant
                    self.inv(),
                    self.metas@ == old(self).metas@,
                    old(self).pos <= self.pos,
                    old(self).arena@.len() <= self.arena@.len(),
                    k_at(*old(self), 0) == TOKEN_IDENT && k_at(*old(self), 1) == TOKEN_ASSIGN
                        ==> ((self.pos == old(self).pos && path@ =~= Seq::<PathSeg>::empty()
                        && self.arena@ == old(self).arena@ && self.errors@ == old(
                        self,
                    ).errors@) || (self.pos == old(self).pos + 1 && path@ == seq![
                        PathSeg { name: SegName::Ident(old(self).pos), dot: None },
                    ] && self.arena@ == old(self).arena@ && self.errors@ == old(self).errors@)),
                ensures
                    k_at(*old(self), 0) == TOKEN_IDENT && k_at(*old(self), 1) == TOKEN_ASSIGN
                        ==> (self.pos == old(self).pos + 1 && path@ == seq![
                        PathSeg { name: SegName::Ident(old(self).pos), dot: None },
                    ] && self.arena@ == old(self).arena@ && self.errors@ == old(self).errors@),
                decreases self.metas@.len() - self.pos,
            {
                let ks = self.peek_kind();
                let name: SegName;
                if ks == TOKEN_IDENT {
                    let m = self.bump();
                    name = SegName::Ident(m);
                } else if ks == TOKEN_INTERPOL_START {
                    let n = self.parse_dynamic();
                    name = SegName::Dynamic(n);
                } else if ks == TOKEN_STRING || ks == TOKEN_STR_OPEN || ks == TOKEN_MSTRING || ks
                    == TOKEN_MSTR_OPEN {
                    let n = self.parse_interpol();
                    name = SegName::Dynamic(n);
                } else {
                    break ;
                }
                if self.peek_kind() == TOKEN_DOT {
                    let d = self.bump();
                    path.push(PathSeg { name, dot: Some(d) });
                } else {
                    path.push(PathSeg { name, dot: None });
                    break ;
                }
            }
            if self.peek_kind() == TOKEN_ASSIGN {
                let assign = self.bump();
                if starts_expr(self.peek_kind()) {
                    let value = self.parse_expr();
                    let semi = self.expect(TOKEN_SEMICOLON, "expected a terminator");
                    SetEntry::Assign { path, assign, value, semi }
                } else {
                    self.diag("expected a value after the assignment");
                    let mut items = flatten_path(&path);
                    items.push(Child::Meta(assign));
                    self.consume_to_semi(stop, &mut items);
                    proof {
                        if broken_assign_at(*old(self)) && stop != TOKEN_SEMICOLON {
                            assert(items@ =~= seq![
                                Child::Meta(old(self).pos),
                                Child::Meta((old(self).pos + 1) as usize),
                                Child::Meta((old(self).pos + 2) as usize),
                            ]);
                        }
                    }
                    SetEntry::Error { items }
                }
            } else {
                self.diag("expected an assignment");
                let mut items = flatten_path(&path);
                self.consume_to_semi(stop, &mut items);
                SetEntry::Error { items }
            }
        } else {
            self.diag("unexpected token in a binding");
            let mut items: Vec<Child> = Vec::new();
            let m = self.bump();
            items.push(Child::Meta(m));
            if self.metas[m].kind != TOKEN_SEMICOLON {
                self.consume_to_semi(stop, &mut items);
            }
            SetEntry::Error { items }
        }
    }

    /// A destructuring lambda: `{ args }: body`, with optional defaults, an
    /// optional open marker, and an optional alias on either side.
    fn parse_pattern_lambda(&mut self, bind_pre: Option<PatBind>) -> (r: NodeId)
        requires
            old(self).inv(),
        ensures
            final(self).inv(),
            final(self).metas@ == old(self).metas@,
            old(self).pos <= final(self).pos,
            old(self).arena@.len() <= final(self).arena@.len(),
            r < final(self).arena@.len(),
            old(self).metas@[old(self).pos as int].kind != TOKEN_EOF ==> old(self).pos < final(self).pos,
        decreases old(self).metas@.len() - old(self).pos, 8int,
    {
        let start = self.pos;
        let open = self.expect(TOKEN_CURLY_OPEN, "expected an opening brace");
        let mut entries: Vec<PatEntry> = Vec::new();
        let mut ellipsis: Option<MetaId> = None;
        loop
            invariant
                self.inv(),
                self.metas@ == old(self).metas@,
                old(self).pos <= self.pos,
                old(self).arena@.len() <= self.arena@.len(),
            decreases self.metas@.len() - self.pos,
        {
            let k = self.peek_kind();
            if k == TOKEN_ELLIPSIS {
                let e = self.bump();
                ellipsis = Some(e);
                break ;
            }
            if k != TOKEN_IDENT {
                break ;
            }
            let name = self.bump();
            let default: Option<(MetaId, NodeId)>;
            if self.peek_kind() == TOKEN_QUESTION {
                let q = self.bump();
                let d = self.parse_expr();
                default = Some((q, d));
            } else {
                default = None;
            }
            if self.peek_kind() == TOKEN_COMMA {
                let c = self.bump();
                entries.push(PatEntry { name, default, comma: Some(c) });
            } else {
                entries.push(PatEntry { name, default, comma: None });
                break ;
            }
        }
        let close = self.expect(TOKEN_CURLY_CLOSE, "expected a closing brace");
        let bind: Option<PatBind>;
        match bind_pre {
            Some(b) => {
                bind = Some(b);
            },
            None => {
                if self.peek_kind() == TOKEN_AT {
                    let at = self.bump();
                    let ident = self.expect(TOKEN_IDENT, "expected an alias name");
                    bind = Some(PatBind { at, ident, prefix: false });
                } else {
                    bind = None;
                }
            },
        }
        let colon = self.expect(TOKEN_COLON, "expected a colon");
        let body: NodeId;
        if self.pos == start {
            // Nothing of the pattern was present (diagnostics were recorded
            // above): recovery must move, so the offending token, or the
            // absent-token placeholder at the end of input, stands as the
            // body, inside an error node.
            let k = self.peek_kind();
            let mut items: Vec<Child> = Vec::new();
            if k != TOKEN_EOF {
                let m = self.bump();
                items.push(Child::Meta(m));
            } else {
                let m = self.missing();
                items.push(Child::Meta(m));
            }
            body = self.push_node(ASTType::Error { items });
        } else {
            body = self.parse_expr();
        }
        self.push_node(
            ASTType::Lambda {
                arg: LambdaArg::Pattern { open, entries, ellipsis, close, bind },
                colon,
                body,
            },
        )
    }

    /// An interpolated string: literal boundaries alternating with embedded
    /// expressions, in left-to-right source order.
    fn parse_interpol(&mut self) -> (r: NodeId)
        requires
            old(self).inv(),
            old(self).metas@[old(self).pos as int].kind == TOKEN_STRING || old(self).metas@[old(
                self,
            ).pos as int].kind == TOKEN_STR_OPEN || old(self).metas@[old(self).pos as int].kind
                == TOKEN_MSTRING || old(self).metas@[old(self).pos as int].kind
                == TOKEN_MSTR_OPEN,
        ensures
            final(self).inv(),
            final(self).metas@ == old(self).metas@,
            old(self).pos < final(self).pos,
            old(self).arena@.len() <= final(self).arena@.len(),
            r < final(self).arena@.len(),
            interpol_at(*old(self)) ==> interpol_one(*old(self), *final(self), r),
        decreases old(self).metas@.len() - old(self).pos, 5int,
    {
        let k = self.peek_kind();
        let multiline = k == TOKEN_MSTRING || k == TOKEN_MSTR_OPEN;
        let first = self.bump();
        let mut parts: Vec<InterpolPart> = Vec::new();
        let content = string_content(&self.metas[first].token, self.metas[first].kind);
        parts.push(InterpolPart::Literal { meta: first, content });
        if k == TOKEN_STRING || k == TOKEN_MSTRING {
            return self.push_node(ASTType::Interpol { multiline, parts });
        }
        loop
            invariant_except_break
                interpol_at(*old(self)) ==> (self.pos == old(self).pos + 1 && self.arena@ == old(
                    self,
                ).arena@ && self.errors@ == old(self).errors@ && parts@.len() == 1 && (parts@[0]
                    matches InterpolPart::Literal { meta, .. } && meta == old(self).pos)),
            invariant
                self.inv(),
                self.metas@ == old(self).metas@,
                old(self).pos < self.pos,
                old(self).arena@.len() <= self.arena@.len(),
            ensures
                interpol_at(*old(self)) ==> (self.pos == old(self).pos + 3 && self.errors@ == old(
                    self,
                ).errors@ && self.arena@ == old(self).arena@.push(
                    ASTType::Var { meta: (old(self).pos + 1) as usize },
                ) && parts@.len() == 3 && (parts@[0] matches InterpolPart::Literal { meta, .. }
                    && meta == old(self).pos) && parts@[1] == (InterpolPart::Ast {
                    node: old(self).arena@.len() as usize,
                }) && (parts@[2] matches InterpolPart::Literal { meta, .. } && meta == old(
                    self,
                ).pos + 2)),
            decreases self.metas@.len() - self.pos,
        {
            let node = self.parse_expr();
            parts.push(InterpolPart::Ast { node });
            let k2 = self.peek_kind();
            if k2 == TOKEN_STR_MID || k2 == TOKEN_MSTR_MID {
                let m = self.bump();
                let c = string_content(&self.metas[m].token, self.metas[m].kind);
                parts.push(InterpolPart::Literal { meta: m, content: c });
            } else if k2 == TOKEN_STR_CLOSE || k2 == TOKEN_MSTR_CLOSE {
                let m = self.bump();
                let c = string_content(&self.metas[m].token, self.metas[m].kind);
                parts.push(InterpolPart::Literal { meta: m, content: c });
                break ;
            } else {
                self.diag("expected the string to go on");
                let m = self.missing();
                let mut c: Vec<char> = Vec::new();
                parts.push(InterpolPart::Literal { meta: m, content: c });
                break ;
            }
        }
        let r = self.push_node(ASTType::Interpol { multiline, parts });
        proof {
            if interpol_at(*old(self)) {
                let base = old(self).arena@.len() as int;
                assert(self.arena@.subrange(0, base) =~= old(self).arena@);
                assert(self.arena@[base] == ASTType::Var {
                    meta: (old(self).pos + 1) as usize,
                });
            }
        }
        r
    }
}

/// The children an attribute path contributes, for an error entry.
fn flatten_path(path: &Vec<PathSeg>) -> (r: Vec<Child>)
    ensures
        path@.len() == 1 && path@[0].dot is None ==> (path@[0].name matches SegName::Ident(m)
            ==> r@ == seq![Child::Meta(m)]),
{
    let mut items: Vec<Child> = Vec::new();
    let mut j: usize = 0;
    while j < path.len()
        invariant
            j <= path.len(),
            path@.len() == 1 && path@[0].dot is None && path@[0].name is Ident ==> ((j == 0
                && items@ =~= Seq::<Child>::empty()) || (j == 1 && items@ == seq![
                Child::Meta(path@[0].name->Ident_0),
            ])),
        decreases path.len() - j,
    {
        match &path[j].name {
            SegName::Ident(m) => items.push(Child::Meta(*m)),
            SegName::Dynamic(n) => items.push(Child::Node(*n)),
        }
        match &path[j].dot {
            Some(d) => items.push(Child::Meta(*d)),
            None => {},
        }
        j += 1;
    }
    items
}

/// True of the identifier spellings that denote scalar literals.
fn is_scalar_word(t: &String) -> (r: bool)
    ensures
        r == is_scalar_text(t@),
{
    let s = t.as_str();
    let n = s.unicode_len();
    if n == 4 {
        let c0 = s.get_char(0);
        let c1 = s.get_char(1);
        let c2 = s.get_char(2);
        let c3 = s.get_char(3);
        let tr = c0 == 't' && c1 == 'r' && c2 == 'u' && c3 == 'e';
        let nu = c0 == 'n' && c1 == 'u' && c2 == 'l' && c3 == 'l';
        proof {
            if tr {
                assert(t@ =~= seq!['t', 'r', 'u', 'e']);
            }
            if nu {
                assert(t@ =~= seq!['n', 'u', 'l', 'l']);
            }
        }
        tr || nu
    } else if n == 5 {
        let c0 = s.get_char(0);
        let c1 = s.get_char(1);
        let c2 = s.get_char(2);
        let c3 = s.get_char(3);
        let c4 = s.get_char(4);
        let fa = c0 == 'f' && c1 == 'a' && c2 == 'l' && c3 == 's' && c4 == 'e';
        proof {
            if fa {
                assert(t@ =~= seq!['f', 'a', 'l', 's', 'e']);
            }
        }
        fa
    } else {
        false
    }
}

/// Map one escape to the character it stands for.
fn unescape_char(c: char) -> (r: char) {
    if c == 'n' {
        '\n'
    } else if c == 't' {
        '\t'
    } else if c == 'r' {
        '\r'
    } else {
        c
    }
}

/// The processed text of one literal boundary: the delimiters cut away and,
/// in single-line strings, the escapes resolved.
fn string_content(t: &String, kind: u32) -> (r: Vec<char>)
{
    let s = t.as_str();
    let n = s.unicode_len();
    let single = kind == TOKEN_STRING || kind == TOKEN_STR_OPEN || kind == TOKEN_STR_MID || kind
        == TOKEN_STR_CLOSE;
    // Leading delimiter: one quote, two quotes, or the brace that closed an
    // embedded expression.
    let lo: usize = if kind == TOKEN_MSTRING || kind == TOKEN_MSTR_OPEN {
        2
    } else {
        1
    };
    // Trailing delimiter: a quote, two quotes, or an embedded-expression
    // opener of two characters.
    let cut: usize = if kind == TOKEN_STRING || kind == TOKEN_STR_CLOSE {
        1
    } else if kind == TOKEN_MSTRING || kind == TOKEN_MSTR_CLOSE {
        2
    } else {
        2
    };
    let mut out: Vec<char> = Vec::new();
    if n < lo + cut {
        return out;
    }
    let hi = n - cut;
    let mut p = lo;
    while p < hi
        invariant
            hi <= s@.len(),
        decreases hi - p,
    {
        let c = s.get_char(p);
        if single && c == '\\' && p + 1 < hi {
            out.push(unescape_char(s.get_char(p + 1)));
            p += 2;
        } else {
            out.push(c);
            p += 1;
        }
    }
    out
}

/// Parse a token table into a complete tree.  The table is never changed, so
/// the tree's text is exactly the text the table spells; the tree always has
/// a root, whatever the input, and the diagnostics say what was malformed.
pub fn parse_tokens(metas: Vec<Meta>) -> (ast: AST)
    requires
        metas@.len() >= 2,
        metas@[metas@.len() - 2].kind == TOKEN_EOF,
    ensures
        ast.wf(),
        ast.metas@ == metas@,
        ast.text() == metas_text(metas@),
        metas@.len() >= 3 && is_lit_kind(metas@[0].kind) && metas@[1].kind == TOKEN_EOF ==> {
            &&& ast.arena@ == seq![ASTType::Value { meta: 0 }]
            &&& ast.root == 0
            &&& ast.errors@.len() == 0
        },
        metas@.len() >= 3 && metas@[0].kind == TOKEN_IDENT && metas@[1].kind == TOKEN_EOF
            && !is_scalar_text(metas@[0].token@) ==> {
            &&& ast.arena@ == seq![ASTType::Var { meta: 0 }]
            &&& ast.root == 0
            &&& ast.errors@.len() == 0
        },
        metas@.len() >= 5 && metas@[0].kind == TOKEN_STR_OPEN && metas@[1].kind == TOKEN_IDENT
            && !is_scalar_text(metas@[1].token@) && metas@[2].kind == TOKEN_STR_CLOSE
            && metas@[3].kind == TOKEN_EOF ==> {
            &&& ast.arena@.len() == 2
            &&& ast.arena@[0] == ASTType::Var { meta: 1 }
            &&& (ast.arena@[1] matches ASTType::Interpol { multiline, parts } && !multiline
                && parts@.len() == 3 && (parts@[0] matches InterpolPart::Literal { meta, .. }
                && meta == 0) && parts@[1] == (InterpolPart::Ast { node: 0 }) && (parts@[2]
                matches InterpolPart::Literal { meta, .. } && meta == 2))
            &&& ast.root == 1
            &&& ast.errors@.len() == 0
        },
        metas@.len() == 7 && metas@[0].kind == TOKEN_CURLY_OPEN && metas@[1].kind == TOKEN_IDENT
            && metas@[2].kind == TOKEN_ASSIGN && metas@[3].kind == TOKEN_SEMICOLON
            && metas@[4].kind == TOKEN_CURLY_CLOSE && metas@[5].kind == TOKEN_EOF ==> {
            &&& ast.arena@.len() == 1
            &&& (ast.arena@[0] matches ASTType::AttrSet { recursive, open, values, close }
                && recursive is None && open == 0 && close == 4 && values@.len() == 1 && (
            values@[0] matches SetEntry::Error { items } && items@ == seq![
                Child::Meta(1usize),
                Child::Meta(2usize),
                Child::Meta(3usize),
            ]))
            &&& ast.root == 0
            &&& ast.errors@.len() == 1
        },
        metas@.len() >= 9 && metas@[0].kind == TOKEN_LET && metas@[1].kind == TOKEN_IDENT
            && metas@[2].kind == TOKEN_ASSIGN && is_lit_kind(metas@[3].kind) && metas@[4].kind
            == TOKEN_SEMICOLON && metas@[5].kind == TOKEN_IN && metas@[6].kind == TOKEN_IDENT
            && !is_scalar_text(metas@[6].token@) && metas@[7].kind == TOKEN_EOF ==> {
            &&& ast.arena@.len() == 3
            &&& ast.arena@[0] == ASTType::Value { meta: 3 }
            &&& ast.arena@[1] == ASTType::Var { meta: 6 }
            &&& (ast.arena@[2] matches ASTType::LetIn { let_meta, values, in_meta, body }
                && let_meta == 0 && in_meta == 5 && body == 1 && values@.len() == 1
                && assign_entry_shape(values@[0], 1, 0))
            &&& ast.root == 2
            &&& ast.errors@.len() == 0
        },
        metas@.len() >= 5 && is_lit_kind(metas@[0].kind) && is_binop_kind(metas@[1].kind)
            && is_lit_kind(metas@[2].kind) && metas@[3].kind == TOKEN_EOF ==> {
            &&& ast.arena@ == seq![
                ASTType::Value { meta: 0 },
                ASTType::Value { meta: 2 },
                ASTType::Operation { left: 0, op: 1, right: 1 },
            ]
            &&& ast.root == 2
            &&& ast.errors@.len() == 0
        },
        metas@.len() >= 7 && is_lit_kind(metas@[0].kind) && is_binop_kind(metas@[1].kind)
            && is_lit_kind(metas@[2].kind) && is_binop_kind(metas@[3].kind) && is_lit_kind(
            metas@[4].kind,
        ) && metas@[5].kind == TOKEN_EOF && spec_op_level(metas@[1].kind) <= spec_op_level(
            metas@[3].kind,
        ) ==> {
            &&& ast.arena@ == seq![
                ASTType::Value { meta: 0 },
                ASTType::Value { meta: 2 },
                ASTType::Operation { left: 0, op: 1, right: 1 },
                ASTType::Value { meta: 4 },
                ASTType::Operation { left: 2, op: 3, right: 3 },
            ]
            &&& ast.root == 4
            &&& ast.errors@.len() == 0
        },
        metas@.len() >= 7 && is_lit_kind(metas@[0].kind) && is_binop_kind(metas@[1].kind)
            && is_lit_kind(metas@[2].kind) && is_binop_kind(metas@[3].kind) && is_lit_kind(
            metas@[4].kind,
        ) && metas@[5].kind == TOKEN_EOF && spec_op_level(metas@[3].kind) < spec_op_level(
            metas@[1].kind,
        ) ==> {
            &&& ast.arena@ == seq![
                ASTType::Value { meta: 0 },
                ASTType::Value { meta: 2 },
                ASTType::Value { meta: 4 },
                ASTType::Operation { left: 1, op: 3, right: 2 },
                ASTType::Operation { left: 0, op: 1, right: 3 },
            ]
            &&& ast.root == 4
            &&& ast.errors@.len() == 0
        },
{
    let ghost m0 = metas@;
    let mut p = Parser { metas, pos: 0, arena: Vec::new(), errors: Vec::new() };
    let mut root = p.parse_expr();
    if p.peek_kind() != TOKEN_EOF {
        // Tokens stand after the expression: keep them, under an error node
        // that owns the expression and the leftovers.
        p.diag("unexpected tokens after the expression");
        let mut items: Vec<Child> = Vec::new();
        items.push(Child::Node(root));
        loop
            invariant
                p.inv(),
                p.metas@ == m0,
                root < p.arena@.len(),
            decreases p.metas@.len() - p.pos,
        {
            if p.peek_kind() == TOKEN_EOF {
                break ;
            }
            let m = p.bump();
            items.push(Child::Meta(m));
        }
        root = p.push_node(ASTType::Error { items });
    }
    proof {
        if m0.len() >= 3 && is_lit_kind(m0[0].kind) && m0[1].kind == TOKEN_EOF {
            assert(p.arena@ =~= seq![ASTType::Value { meta: 0 }]);
        }
        if m0.len() >= 3 && m0[0].kind == TOKEN_IDENT && m0[1].kind == TOKEN_EOF && !is_scalar_text(
            m0[0].token@,
        ) {
            assert(p.arena@ =~= seq![ASTType::Var { meta: 0 }]);
        }
        if m0.len() >= 5 && is_lit_kind(m0[0].kind) && is_binop_kind(m0[1].kind) && is_lit_kind(
            m0[2].kind,
        ) && m0[3].kind == TOKEN_EOF {
            assert(p.arena@ =~= seq![
                ASTType::Value { meta: 0 },
                ASTType::Value { meta: 2 },
                ASTType::Operation { left: 0, op: 1, right: 1 },
            ]);
        }
        if m0.len() >= 7 && is_lit_kind(m0[0].kind) && is_binop_kind(m0[1].kind) && is_lit_kind(
            m0[2].kind,
        ) && is_binop_kind(m0[3].kind) && is_lit_kind(m0[4].kind) && m0[5].kind == TOKEN_EOF {
            if spec_op_level(m0[1].kind) <= spec_op_level(m0[3].kind) {
                assert(p.arena@ =~= seq![
                    ASTType::Value { meta: 0 },
                    ASTType::Value { meta: 2 },
                    ASTType::Operation { left: 0, op: 1, right: 1 },
                    ASTType::Value { meta: 4 },
                    ASTType::Operation { left: 2, op: 3, right: 3 },
                ]);
            } else {
                assert(p.arena@ =~= seq![
                    ASTType::Value { meta: 0 },
                    ASTType::Value { meta: 2 },
                    ASTType::Value { meta: 4 },
                    ASTType::Operation { left: 1, op: 3, right: 2 },
                    ASTType::Operation { left: 0, op: 1, right: 3 },
                ]);
            }
        }
    }
    AST { metas: p.metas, arena: p.arena, root, errors: p.errors }
}

} // verus!
