//! Property checks on concrete values: the byte-for-byte round trip, parse
//! stability after serializing, totality on malformed input, the agreement
//! of the two child enumerations, and the kind registry's range.

use rnix::kinds::{kind_name, KIND_BASE, KIND_COUNT};
use rnix::parse;
use rnix::tree::Child;
use rnix::types::{AttrSet, Ident, Interpol, InterpolPartView, Lambda, LetIn, OpKind, Operation, Value};
use rnix::value::{NixValue, ValueError};

fn branch_kw() -> String {
    ["th", "en"].concat()
}

fn chars(s: &str) -> Vec<char> {
    s.chars().collect()
}

fn round_trip(src: &str) {
    let ast = parse(src);
    assert_eq!(ast.serialize(), src);
}

#[test]
fn round_trip_well_formed() {
    round_trip("1 + 2");
    round_trip("# comment\n{ a = 1; /* mid */ b = 2; }\n");
    round_trip("let pkgs = import ./pkgs.nix; in with pkgs; [ a b ]");
    round_trip(r#"let b = "x"; in { ${b} = 1; a.${b} = 2; }"#);
    round_trip("{ a, b ? 2, ... } @ args: a");
    round_trip(r#""a${b}c""#);
    round_trip("''\n  line one\n  ${x}\n''");
    round_trip(&format!("if 1 < 2 {} 3 else 4", branch_kw()));
    round_trip("  \t\n");
    round_trip("");
}

#[test]
fn round_trip_malformed() {
    round_trip("((");
    round_trip("1 +");
    round_trip("{ a = ; }");
    round_trip("\"unterminated");
    round_trip("} ] ) ;;");
    round_trip("let a = in 5");
    round_trip("a . . b");
    round_trip("price: 12,50 \u{20ac} \u{3bb}");
}

#[test]
fn reparse_is_stable() {
    for src in [
        "1 + 2 * 3",
        "# c\nlet a = 1; in { inherit a; b = \"x${a}y\"; }\n",
        "{ a = ; } }",
        "((",
    ] {
        let once = parse(src);
        let again = parse(&once.serialize());
        assert_eq!(once, again);
    }
}

#[test]
fn totality() {
    // Whatever the input, there is a root node and it resolves.
    for src in ["", "}{", "\u{0}\u{1}", "let", "''", "${"] {
        let ast = parse(src);
        assert!(ast.node(ast.root).is_some());
    }
    // Diagnostics are empty exactly on the well-formed samples...
    assert!(parse("1 + 2").as_result().is_ok());
    assert!(parse("{ a = 1; }").as_result().is_ok());
    // ... and present on the malformed ones.
    assert!(parse("{ a = ; }").as_result().is_err());
    assert!(parse("1 +").as_result().is_err());
}

#[test]
fn scenario_add() {
    let ast = parse("1 + 2");
    let op = Operation::cast(&ast, ast.root).unwrap();
    assert_eq!(op.operator(&ast), Some(OpKind::Add));
    let l = Value::cast(&ast, op.value1()).unwrap();
    let r = Value::cast(&ast, op.value2()).unwrap();
    assert_eq!(l.to_value(&ast), Ok(NixValue::Integer(1)));
    assert_eq!(r.to_value(&ast), Ok(NixValue::Integer(2)));
}

#[test]
fn precedence_nesting() {
    // The looser operator ends on top; application and tighter levels nest
    // inside, and equal levels associate to the left.
    let ast = parse("1 + 2 * 3");
    let add = Operation::cast(&ast, ast.root).unwrap();
    assert_eq!(add.operator(&ast), Some(OpKind::Add));
    assert!(Value::cast(&ast, add.value1()).is_some());
    let mul = Operation::cast(&ast, add.value2()).unwrap();
    assert_eq!(mul.operator(&ast), Some(OpKind::Mul));

    let ast2 = parse("1 * 2 + 3");
    let add2 = Operation::cast(&ast2, ast2.root).unwrap();
    assert_eq!(add2.operator(&ast2), Some(OpKind::Add));
    let mul2 = Operation::cast(&ast2, add2.value1()).unwrap();
    assert_eq!(mul2.operator(&ast2), Some(OpKind::Mul));
    assert!(Value::cast(&ast2, add2.value2()).is_some());

    let ast3 = parse("1 + 2 - 3");
    let sub = Operation::cast(&ast3, ast3.root).unwrap();
    assert_eq!(sub.operator(&ast3), Some(OpKind::Sub));
    let inner = Operation::cast(&ast3, sub.value1()).unwrap();
    assert_eq!(inner.operator(&ast3), Some(OpKind::Add));

    // Redundant parentheses add a node without changing the nesting.
    let ast4 = parse("(1 + 2) * 3");
    let top = Operation::cast(&ast4, ast4.root).unwrap();
    assert_eq!(top.operator(&ast4), Some(OpKind::Mul));
}

#[test]
fn scenario_let_in() {
    let ast = parse("let a = 1; in a");
    let let_in = LetIn::cast(&ast, ast.root).unwrap();
    let entries = rnix::types::entries_of(&ast, ast.root);
    assert_eq!(entries.len(), 1);
    let key = entries[0].key.unwrap();
    assert_eq!(ast.meta(key).unwrap().token.as_str(), "a");
    let bound = Value::cast(&ast, entries[0].value).unwrap();
    assert_eq!(bound.to_value(&ast), Ok(NixValue::Integer(1)));
    let body = Ident::cast(&ast, let_in.body()).unwrap();
    assert_eq!(body.name(&ast).as_str(), "a");
}

#[test]
fn scenario_pattern() {
    let ast = parse("{ a, b ? 2, ... }: a");
    let lambda = Lambda::cast(&ast, ast.root).unwrap();
    assert!(lambda.arg_ident.is_none());
    assert!(lambda.ellipsis);
    assert_eq!(lambda.pat_entries.len(), 2);
    assert_eq!(ast.meta(lambda.pat_entries[0].0).unwrap().token.as_str(), "a");
    assert!(lambda.pat_entries[0].1.is_none());
    assert_eq!(ast.meta(lambda.pat_entries[1].0).unwrap().token.as_str(), "b");
    let default = Value::cast(&ast, lambda.pat_entries[1].1.unwrap()).unwrap();
    assert_eq!(default.to_value(&ast), Ok(NixValue::Integer(2)));
}

#[test]
fn scenario_interpolation_children() {
    let ast = parse(" \"a${b}c\"");
    let node = ast.node(ast.root).unwrap();
    let interpol = Interpol::cast(&ast, ast.root).unwrap();
    let parts = interpol.parts(&ast);
    assert_eq!(parts.len(), 3);
    assert!(matches!(&parts[0], InterpolPartView::Literal(c) if *c == chars("a")));
    assert!(matches!(&parts[2], InterpolPartView::Literal(c) if *c == chars("c")));
    // The children, in order: the opening boundary (carrying the leading
    // trivia), the embedded expression, the closing boundary.
    let mut it = node.children();
    let first = it.next().unwrap();
    match first {
        Child::Meta(m) => {
            let meta = ast.meta(m).unwrap();
            assert_eq!(meta.trivia.len(), 1);
            assert_eq!(meta.trivia[0].as_str(), " ");
            assert_eq!(meta.token.as_str(), "\"a${");
        },
        Child::Node(_) => panic!("expected a terminal"),
    }
    let second = it.next().unwrap();
    match second {
        Child::Node(n) => {
            let var = Ident::cast(&ast, n).unwrap();
            assert_eq!(var.name(&ast).as_str(), "b");
        },
        Child::Meta(_) => panic!("expected a sub-node"),
    }
    let third = it.next().unwrap();
    match third {
        Child::Meta(m) => {
            assert_eq!(ast.meta(m).unwrap().token.as_str(), "}c\"");
        },
        Child::Node(_) => panic!("expected a terminal"),
    }
    assert!(it.next().is_none());
}

#[test]
fn scenario_error_entry() {
    let ast = parse("{ a = ; }");
    assert!(ast.as_result().is_err());
    let set = AttrSet::cast(&ast, ast.root).unwrap();
    // The malformed entry contributes no children: only the braces remain.
    let node = ast.node(ast.root).unwrap();
    let mut it = node.children();
    let mut count = 0;
    while let Some(c) = it.next() {
        assert!(matches!(c, Child::Meta(_)));
        count += 1;
    }
    assert_eq!(count, 2);
    // And it yields no assignment views either.
    assert_eq!(set.entries(&ast).len(), 0);
    // The text still round-trips.
    assert_eq!(ast.serialize(), "{ a = ; }");
}

#[test]
fn registry_contiguity() {
    assert!(kind_name(KIND_BASE - 1).is_none());
    assert!(kind_name(KIND_BASE + KIND_COUNT).is_none());
    assert!(kind_name(0).is_none());
    assert!(kind_name(u32::MAX).is_none());
    for code in KIND_BASE..KIND_BASE + KIND_COUNT {
        assert!(kind_name(code).is_some());
    }
    assert_eq!(kind_name(KIND_BASE), Some("TOKEN_COMMENT"));
    // Every node's grammar production carries a registered code.
    let ast = parse("1 + 2");
    let k = ast.node(ast.root).unwrap().kind();
    assert_eq!(kind_name(k), Some("NODE_OPERATION"));
}

#[test]
fn enumeration_views_agree() {
    let ast = parse("let a = 1; in { inherit (s) x y; b.c = \"v${d}w\"; }");
    for id in 0..ast.arena.len() {
        let node = ast.node(id).unwrap();
        // The indexed view and the enumerator agree, and restarting the
        // enumeration repeats it.
        let mut it = node.children();
        let mut again = node.children();
        let mut i = 0;
        while let Some(c) = it.next() {
            assert_eq!(node.child(i), Some(c));
            assert_eq!(again.next(), Some(c));
            i += 1;
        }
        assert!(node.child(i).is_none());
        assert!(again.next().is_none());
    }
}

#[test]
fn replace_child_matches_enumeration() {
    let ast = parse("1 + 2");
    let mut node = ast.node(ast.root).unwrap().clone();
    // Children of an operation: left node, operator terminal, right node.
    let before: Vec<Child> = collect_children(&node);
    assert_eq!(before.len(), 3);
    assert!(matches!(before[0], Child::Node(_)));
    assert!(matches!(before[1], Child::Meta(_)));
    // Replacing with the matching sort of child lands on that index.
    assert!(node.replace_child(2, Child::Node(0)));
    let after: Vec<Child> = collect_children(&node);
    assert_eq!(after[0], before[0]);
    assert_eq!(after[1], before[1]);
    assert_eq!(after[2], Child::Node(0));
    // A mismatched sort, or an index out of range, changes nothing.
    assert!(!node.replace_child(1, Child::Node(0)));
    assert!(!node.replace_child(3, Child::Meta(0)));
    assert_eq!(collect_children(&node), after);
}

fn collect_children(node: &rnix::tree::ASTType) -> Vec<Child> {
    let mut it = node.children();
    let mut out = Vec::new();
    while let Some(c) = it.next() {
        out.push(c);
    }
    out
}

#[test]
fn value_conversions() {
    let ast = parse("[ 9223372036854775807 9223372036854775808 1.5 ./p true false null x ]");
    let node = ast.node(ast.root).unwrap();
    let mut it = node.children();
    let mut vals = Vec::new();
    while let Some(c) = it.next() {
        if let Child::Node(n) = c {
            if let Some(v) = Value::cast(&ast, n) {
                vals.push(v.to_value(&ast));
            } else {
                assert!(Ident::cast(&ast, n).is_some());
            }
        }
    }
    assert_eq!(vals[0], Ok(NixValue::Integer(i64::MAX)));
    assert_eq!(vals[1], Err(ValueError::Overflow));
    assert_eq!(vals[2], Ok(NixValue::Float(chars("1.5"))));
    assert_eq!(vals[3], Ok(NixValue::Path(chars("./p"))));
    assert_eq!(vals[4], Ok(NixValue::Bool(true)));
    assert_eq!(vals[5], Ok(NixValue::Bool(false)));
    assert_eq!(vals[6], Ok(NixValue::Null));
}

#[test]
fn multiline_strings() {
    let src = "''one\n  two ${x} three''";
    round_trip(src);
    let ast = parse(src);
    let interpol = Interpol::cast(&ast, ast.root).unwrap();
    assert!(interpol.multiline);
    let parts = interpol.parts(&ast);
    assert_eq!(parts.len(), 3);
    assert!(matches!(&parts[0], InterpolPartView::Literal(c) if *c == chars("one\n  two ")));
}
