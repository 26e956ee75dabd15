//! A lossless parser for a small, lazily evaluated configuration and
//! expression language.  Parsing always succeeds: malformed input yields a
//! complete, navigable tree together with diagnostics, and re-serializing
//! any tree reproduces the source text it was parsed from, byte for byte.

use vstd::prelude::*;

pub mod kinds;
pub mod parser;
pub mod tokenizer;
pub mod tree;
pub mod types;
pub mod value;

verus! {

/// Scan and parse the given source text: always a complete, navigable tree,
/// with diagnostics for what was malformed, and whose
/// serialization is the input itself, byte for byte.  Re-parsing that
/// serialization therefore reads the very same text, which is why parsing
/// again after serializing changes nothing.
pub fn parse(input: &str) -> (ast: tree::AST)
    ensures
        ast.wf(),
        ast.text() == input@,
        forall|i: int|
            0 <= i < ast.metas@.len() ==> kinds::kind_in_range(#[trigger] ast.metas@[i].kind),
        input@ == tokenizer::sample_addition() ==> (ast.arena@ == seq![
            tree::ASTType::Value { meta: 0 },
            tree::ASTType::Value { meta: 2 },
            tree::ASTType::Operation { left: 0, op: 1, right: 1 },
        ] && ast.root == 2 && ast.errors@.len() == 0),
        input@ == tokenizer::sample_precedence() ==> (ast.arena@ == seq![
            tree::ASTType::Value { meta: 0 },
            tree::ASTType::Value { meta: 2 },
            tree::ASTType::Value { meta: 4 },
            tree::ASTType::Operation { left: 1, op: 3, right: 2 },
            tree::ASTType::Operation { left: 0, op: 1, right: 3 },
        ] && ast.root == 4 && ast.errors@.len() == 0),
        input@ == tokenizer::sample_interpolation() ==> (ast.arena@.len() == 2 && ast.arena@[0]
            == (tree::ASTType::Var { meta: 1 }) && (ast.arena@[1] matches tree::ASTType::Interpol {
            multiline,
            parts,
        } && !multiline && parts@.len() == 3 && (parts@[0] matches tree::InterpolPart::Literal {
            meta,
            ..
        } && meta == 0) && parts@[1] == (tree::InterpolPart::Ast { node: 0 }) && (parts@[2]
            matches tree::InterpolPart::Literal { meta, .. } && meta == 2)) && ast.root == 1
            && ast.errors@.len() == 0),
        input@ == tokenizer::sample_let_in() ==> (ast.arena@.len() == 3 && ast.arena@[0] == (
        tree::ASTType::Value { meta: 3 }) && ast.arena@[1] == (tree::ASTType::Var { meta: 6 })
            && (ast.arena@[2] matches tree::ASTType::LetIn { let_meta, values, in_meta, body }
            && let_meta == 0 && in_meta == 5 && body == 1 && values@.len() == 1
            && parser::assign_entry_shape(values@[0], 1, 0)) && ast.root == 2
            && ast.errors@.len() == 0),
        input@ == tokenizer::sample_broken_set() ==> (ast.arena@.len() == 1 && (ast.arena@[0]
            matches tree::ASTType::AttrSet { recursive, open, values, close } && recursive is None
            && open == 0 && close == 4 && values@.len() == 1 && (values@[0]
            matches tree::SetEntry::Error { items } && items@ == seq![
            tree::Child::Meta(1usize),
            tree::Child::Meta(2usize),
            tree::Child::Meta(3usize),
        ])) && ast.root == 0 && ast.errors@.len() == 1),
{
    parser::parse_tokens(tokenizer::tokenize(input))
}

} // verus!
