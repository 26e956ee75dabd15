//! The lossless tree: one arena per parse, nodes addressed by opaque indices,
//! every token of the source held in a single ordered table of `Meta` items.
//!
//! Serializing a tree concatenates that table in order, so the tree keeps
//! every byte of the input.  The generic child enumeration (`children`,
//! `child`) and its mutating counterpart (`replace_child`) are both proved
//! against the one spec sequence `node_children`, so the two views cannot
//! disagree on count or order.

use vstd::prelude::*;

use crate::kinds::{
    kind_in_range, NODE_APPLY, NODE_ASSERT, NODE_DYNAMIC, NODE_ERROR, NODE_IF_ELSE, NODE_IMPORT,
    NODE_INDEX_SET, NODE_INTERPOL, NODE_LAMBDA, NODE_LET, NODE_LET_IN, NODE_LIST, NODE_OPERATION,
    NODE_OR_DEFAULT, NODE_PARENS, NODE_SET, NODE_UNARY, NODE_VALUE, NODE_VAR, NODE_WITH,
};

verus! {

/// An opaque reference to a node in the arena.  Which logical node a value
/// denotes is the arena's concern: resolve it only through the arena.
pub type NodeId = usize;

/// An opaque reference to one entry of the token table of a tree.
pub type MetaId = usize;

/// One terminal of the source: the comments and whitespace that precede a
/// token, the token's kind, and its exact text.
#[derive(Clone, PartialEq, Eq, Debug)]
pub struct Meta {
    /// The trivia items (comments, whitespace) before the token, in order.
    pub trivia: Vec<String>,
    /// The kind code of the token (see `kinds`).
    pub kind: u32,
    /// The exact source text of the token itself.
    pub token: String,
}

/// The text of a sequence of trivia items, concatenated in order.
pub open spec fn trivia_text(ts: Seq<String>) -> Seq<char>
    decreases ts.len(),
{
    if ts.len() == 0 {
        Seq::empty()
    } else {
        trivia_text(ts.drop_last()) + ts.last()@
    }
}

/// The exact source text a `Meta` covers: its trivia, followed by its token.
pub open spec fn meta_text(m: Meta) -> Seq<char> {
    trivia_text(m.trivia@) + m.token@
}

/// The text of a sequence of `Meta` items, concatenated in order.
pub open spec fn metas_text(ms: Seq<Meta>) -> Seq<char>
    decreases ms.len(),
{
    if ms.len() == 0 {
        Seq::empty()
    } else {
        metas_text(ms.drop_last()) + meta_text(ms.last())
    }
}

pub proof fn lemma_trivia_text_take_step(ts: Seq<String>, j: int)
    requires
        0 <= j < ts.len(),
    ensures
        trivia_text(ts.take(j + 1)) == trivia_text(ts.take(j)) + ts[j]@,
{
    assert(ts.take(j + 1).drop_last() =~= ts.take(j));
    assert(ts.take(j + 1).last() == ts[j]);
}

pub proof fn lemma_metas_text_take_step(ms: Seq<Meta>, j: int)
    requires
        0 <= j < ms.len(),
    ensures
        metas_text(ms.take(j + 1)) == metas_text(ms.take(j)) + meta_text(ms[j]),
{
    assert(ms.take(j + 1).drop_last() =~= ms.take(j));
    assert(ms.take(j + 1).last() == ms[j]);
}

/// A child of a node: either one terminal (trivia plus token) or a sub-node.
/// Both are opaque references, resolved through the owning tree.
#[derive(Clone, Copy, PartialEq, Eq, Structural, Debug)]
pub enum Child {
    Meta(MetaId),
    Node(NodeId),
}

/// One segment of an attribute path, with the separator that follows it.
#[derive(Clone, PartialEq, Eq, Debug)]
pub struct PathSeg {
    /// The segment itself: a plain identifier or a dynamic attribute node.
    pub name: SegName,
    /// The separator dot after the segment, absent on the last segment.
    pub dot: Option<MetaId>,
}

#[derive(Clone, Copy, PartialEq, Eq, Debug)]
pub enum SegName {
    Ident(MetaId),
    Dynamic(NodeId),
}

/// One entry of a set or let body.
#[derive(Clone, PartialEq, Eq, Debug)]
pub enum SetEntry {
    /// `path = value ;`
    Assign { path: Vec<PathSeg>, assign: MetaId, value: NodeId, semi: MetaId },
    /// `inherit (source)? names... ;`
    Inherit {
        inherit: MetaId,
        from: Option<(MetaId, NodeId, MetaId)>,
        idents: Vec<MetaId>,
        semi: MetaId,
    },
    /// A malformed entry: the terminals and nodes it swallowed, kept so the
    /// source text survives, but contributing no children to enumeration.
    Error { items: Vec<Child> },
}

/// One part of an interpolated string: a literal boundary (its exact source
/// text lives in the token table; `content` is the processed text with
/// escapes resolved and delimiters removed) or an embedded expression.
#[derive(Clone, PartialEq, Eq, Debug)]
pub enum InterpolPart {
    Literal { meta: MetaId, content: Vec<char> },
    Ast { node: NodeId },
}

/// One argument of a destructuring lambda pattern.
#[derive(Clone, PartialEq, Eq, Debug)]
pub struct PatEntry {
    pub name: MetaId,
    /// The `?` terminal and the default value, when present.
    pub default: Option<(MetaId, NodeId)>,
    /// The separator comma after the entry, absent on the last one.
    pub comma: Option<MetaId>,
}

/// The binding alias of a pattern: its `@` terminal and its identifier.
/// `prefix` says whether the alias stands before the pattern braces.
#[derive(Clone, Copy, PartialEq, Eq, Debug)]
pub struct PatBind {
    pub at: MetaId,
    pub ident: MetaId,
    pub prefix: bool,
}

/// The argument position of a lambda: a plain identifier or a pattern.
#[derive(Clone, PartialEq, Eq, Debug)]
pub enum LambdaArg {
    Ident { meta: MetaId },
    Pattern {
        open: MetaId,
        entries: Vec<PatEntry>,
        ellipsis: Option<MetaId>,
        close: MetaId,
        bind: Option<PatBind>,
    },
}

/// A node of the tree: one variant per grammar production.  A variant's
/// declared fields are the complete set of things the child enumeration
/// walks; no child exists outside what is declared.
#[derive(Clone, PartialEq, Eq, Debug)]
pub enum ASTType {
    Interpol { multiline: bool, parts: Vec<InterpolPart> },
    Lambda { arg: LambdaArg, colon: MetaId, body: NodeId },
    List { open: MetaId, items: Vec<NodeId>, close: MetaId },
    Parens { open: MetaId, inner: NodeId, close: MetaId },
    AttrSet { recursive: Option<MetaId>, open: MetaId, values: Vec<SetEntry>, close: MetaId },
    Value { meta: MetaId },
    Var { meta: MetaId },
    Assert { assert_meta: MetaId, condition: NodeId, semi: MetaId, rest: NodeId },
    IfElse {
        if_meta: MetaId,
        condition: NodeId,
        taken_meta: MetaId,
        taken_body: NodeId,
        else_meta: MetaId,
        else_body: NodeId,
    },
    Import { meta: MetaId, path: NodeId },
    Let { let_meta: MetaId, open: MetaId, values: Vec<SetEntry>, close: MetaId },
    LetIn { let_meta: MetaId, values: Vec<SetEntry>, in_meta: MetaId, body: NodeId },
    With { with: MetaId, namespace: NodeId, semi: MetaId, body: NodeId },
    Apply { func: NodeId, arg: NodeId },
    Dynamic { open: MetaId, inner: NodeId, close: MetaId },
    IndexSet { indexed: NodeId, dot: MetaId, attr: NodeId },
    OrDefault { indexed: NodeId, dot: MetaId, attr: NodeId, or: MetaId, default: NodeId },
    Unary { op: MetaId, value: NodeId },
    Operation { left: NodeId, op: MetaId, right: NodeId },
    /// A production that failed to match: the terminals and nodes consumed
    /// while recovering, in source order.
    Error { items: Vec<Child> },
}

// ---------------------------------------------------------------------------
// The one source of truth for child order: `node_children`.
// ---------------------------------------------------------------------------

pub open spec fn seg_children(s: PathSeg) -> Seq<Child> {
    (match s.name {
        SegName::Ident(m) => seq![Child::Meta(m)],
        SegName::Dynamic(n) => seq![Child::Node(n)],
    }) + (match s.dot {
        Some(d) => seq![Child::Meta(d)],
        None => Seq::empty(),
    })
}

pub open spec fn segs_children(ss: Seq<PathSeg>) -> Seq<Child>
    decreases ss.len(),
{
    if ss.len() == 0 {
        Seq::empty()
    } else {
        segs_children(ss.drop_last()) + seg_children(ss.last())
    }
}

pub open spec fn idents_children(ms: Seq<MetaId>) -> Seq<Child>
    decreases ms.len(),
{
    if ms.len() == 0 {
        Seq::empty()
    } else {
        idents_children(ms.drop_last()) + seq![Child::Meta(ms.last())]
    }
}

/// Children of one set entry.  An error entry contributes exactly none.
pub open spec fn entry_children(e: SetEntry) -> Seq<Child> {
    match e {
        SetEntry::Assign { path, assign, value, semi } => segs_children(path@) + seq![
            Child::Meta(assign),
            Child::Node(value),
            Child::Meta(semi),
        ],
        SetEntry::Inherit { inherit, from, idents, semi } => seq![Child::Meta(inherit)] + (match from {
            Some((o, n, c)) => seq![Child::Meta(o), Child::Node(n), Child::Meta(c)],
            None => Seq::empty(),
        }) + idents_children(idents@) + seq![Child::Meta(semi)],
        SetEntry::Error { .. } => Seq::empty(),
    }
}

pub open spec fn entries_children(es: Seq<SetEntry>) -> Seq<Child>
    decreases es.len(),
{
    if es.len() == 0 {
        Seq::empty()
    } else {
        entries_children(es.drop_last()) + entry_children(es.last())
    }
}

pub open spec fn part_children(p: InterpolPart) -> Seq<Child> {
    match p {
        InterpolPart::Literal { meta, .. } => seq![Child::Meta(meta)],
        InterpolPart::Ast { node } => seq![Child::Node(node)],
    }
}

pub open spec fn parts_children(ps: Seq<InterpolPart>) -> Seq<Child>
    decreases ps.len(),
{
    if ps.len() == 0 {
        Seq::empty()
    } else {
        parts_children(ps.drop_last()) + part_children(ps.last())
    }
}

pub open spec fn pat_entry_children(e: PatEntry) -> Seq<Child> {
    seq![Child::Meta(e.name)] + (match e.default {
        Some((q, d)) => seq![Child::Meta(q), Child::Node(d)],
        None => Seq::empty(),
    }) + (match e.comma {
        Some(c) => seq![Child::Meta(c)],
        None => Seq::empty(),
    })
}

pub open spec fn pat_entries_children(es: Seq<PatEntry>) -> Seq<Child>
    decreases es.len(),
{
    if es.len() == 0 {
        Seq::empty()
    } else {
        pat_entries_children(es.drop_last()) + pat_entry_children(es.last())
    }
}

pub open spec fn nodes_children(ns: Seq<NodeId>) -> Seq<Child>
    decreases ns.len(),
{
    if ns.len() == 0 {
        Seq::empty()
    } else {
        nodes_children(ns.drop_last()) + seq![Child::Node(ns.last())]
    }
}

pub open spec fn arg_children(a: LambdaArg) -> Seq<Child> {
    match a {
        LambdaArg::Ident { meta } => seq![Child::Meta(meta)],
        LambdaArg::Pattern { open, entries, ellipsis, close, bind } => (match bind {
            Some(b) => if b.prefix {
                seq![Child::Meta(b.ident), Child::Meta(b.at)]
            } else {
                Seq::empty()
            },
            None => Seq::empty(),
        }) + seq![Child::Meta(open)] + pat_entries_children(entries@) + (match ellipsis {
            Some(e) => seq![Child::Meta(e)],
            None => Seq::empty(),
        }) + seq![Child::Meta(close)] + (match bind {
            Some(b) => if !b.prefix {
                seq![Child::Meta(b.at), Child::Meta(b.ident)]
            } else {
                Seq::empty()
            },
            None => Seq::empty(),
        }),
    }
}

/// The children of a node, in left-to-right source order: every terminal and
/// every sub-node it declares.  This single sequence is what the read-only
/// enumeration returns and what the mutating operation updates.
pub open spec fn node_children(n: ASTType) -> Seq<Child> {
    match n {
        ASTType::Interpol { parts, .. } => parts_children(parts@),
        ASTType::Lambda { arg, colon, body } => arg_children(arg) + seq![
            Child::Meta(colon),
            Child::Node(body),
        ],
        ASTType::List { open, items, close } => seq![Child::Meta(open)] + nodes_children(items@)
            + seq![Child::Meta(close)],
        ASTType::Parens { open, inner, close } => seq![
            Child::Meta(open),
            Child::Node(inner),
            Child::Meta(close),
        ],
        ASTType::AttrSet { recursive, open, values, close } => (match recursive {
            Some(r) => seq![Child::Meta(r)],
            None => Seq::empty(),
        }) + seq![Child::Meta(open)] + entries_children(values@) + seq![Child::Meta(close)],
        ASTType::Value { meta } => seq![Child::Meta(meta)],
        ASTType::Var { meta } => seq![Child::Meta(meta)],
        ASTType::Assert { assert_meta, condition, semi, rest } => seq![
            Child::Meta(assert_meta),
            Child::Node(condition),
            Child::Meta(semi),
            Child::Node(rest),
        ],
        ASTType::IfElse { if_meta, condition, taken_meta, taken_body, else_meta, else_body } => seq![
            Child::Meta(if_meta),
            Child::Node(condition),
            Child::Meta(taken_meta),
            Child::Node(taken_body),
            Child::Meta(else_meta),
            Child::Node(else_body),
        ],
        ASTType::Import { meta, path } => seq![Child::Meta(meta), Child::Node(path)],
        ASTType::Let { let_meta, open, values, close } => seq![
            Child::Meta(let_meta),
            Child::Meta(open),
        ] + entries_children(values@) + seq![Child::Meta(close)],
        ASTType::LetIn { let_meta, values, in_meta, body } => seq![Child::Meta(let_meta)]
            + entries_children(values@) + seq![Child::Meta(in_meta), Child::Node(body)],
        ASTType::With { with, namespace, semi, body } => seq![
            Child::Meta(with),
            Child::Node(namespace),
            Child::Meta(semi),
            Child::Node(body),
        ],
        ASTType::Apply { func, arg } => seq![Child::Node(func), Child::Node(arg)],
        ASTType::Dynamic { open, inner, close } => seq![
            Child::Meta(open),
            Child::Node(inner),
            Child::Meta(close),
        ],
        ASTType::IndexSet { indexed, dot, attr } => seq![
            Child::Node(indexed),
            Child::Meta(dot),
            Child::Node(attr),
        ],
        ASTType::OrDefault { indexed, dot, attr, or, default } => seq![
            Child::Node(indexed),
            Child::Meta(dot),
            Child::Node(attr),
            Child::Meta(or),
            Child::Node(default),
        ],
        ASTType::Unary { op, value } => seq![Child::Meta(op), Child::Node(value)],
        ASTType::Operation { left, op, right } => seq![
            Child::Node(left),
            Child::Meta(op),
            Child::Node(right),
        ],
        ASTType::Error { items } => items@,
    }
}

// ---------------------------------------------------------------------------
// Step lemmas for the fold specs, used by the enumeration loops.
// ---------------------------------------------------------------------------

pub proof fn lemma_segs_children_take_step(ss: Seq<PathSeg>, j: int)
    requires
        0 <= j < ss.len(),
    ensures
        segs_children(ss.take(j + 1)) == segs_children(ss.take(j)) + seg_children(ss[j]),
{
    assert(ss.take(j + 1).drop_last() =~= ss.take(j));
    assert(ss.take(j + 1).last() == ss[j]);
}

pub proof fn lemma_idents_children_take_step(ms: Seq<MetaId>, j: int)
    requires
        0 <= j < ms.len(),
    ensures
        idents_children(ms.take(j + 1)) == idents_children(ms.take(j)) + seq![
            Child::Meta(ms[j]),
        ],
{
    assert(ms.take(j + 1).drop_last() =~= ms.take(j));
    assert(ms.take(j + 1).last() == ms[j]);
}

pub proof fn lemma_entries_children_take_step(es: Seq<SetEntry>, j: int)
    requires
        0 <= j < es.len(),
    ensures
        entries_children(es.take(j + 1)) == entries_children(es.take(j)) + entry_children(es[j]),
{
    assert(es.take(j + 1).drop_last() =~= es.take(j));
    assert(es.take(j + 1).last() == es[j]);
}

pub proof fn lemma_parts_children_take_step(ps: Seq<InterpolPart>, j: int)
    requires
        0 <= j < ps.len(),
    ensures
        parts_children(ps.take(j + 1)) == parts_children(ps.take(j)) + part_children(ps[j]),
{
    assert(ps.take(j + 1).drop_last() =~= ps.take(j));
    assert(ps.take(j + 1).last() == ps[j]);
}

pub proof fn lemma_pat_entries_children_take_step(es: Seq<PatEntry>, j: int)
    requires
        0 <= j < es.len(),
    ensures
        pat_entries_children(es.take(j + 1)) == pat_entries_children(es.take(j))
            + pat_entry_children(es[j]),
{
    assert(es.take(j + 1).drop_last() =~= es.take(j));
    assert(es.take(j + 1).last() == es[j]);
}

pub proof fn lemma_nodes_children_take_step(ns: Seq<NodeId>, j: int)
    requires
        0 <= j < ns.len(),
    ensures
        nodes_children(ns.take(j + 1)) == nodes_children(ns.take(j)) + seq![Child::Node(ns[j])],
{
    assert(ns.take(j + 1).drop_last() =~= ns.take(j));
    assert(ns.take(j + 1).last() == ns[j]);
}

// ---------------------------------------------------------------------------
// The read-only enumeration, verified against `node_children`.
// ---------------------------------------------------------------------------

fn push_seg_children(v: &mut Vec<Child>, s: &PathSeg)
    ensures
        final(v)@ == old(v)@ + seg_children(*s),
{
    match &s.name {
        SegName::Ident(m) => v.push(Child::Meta(*m)),
        SegName::Dynamic(n) => v.push(Child::Node(*n)),
    }
    match &s.dot {
        Some(d) => v.push(Child::Meta(*d)),
        None => {},
    }
    assert(v@ =~= old(v)@ + seg_children(*s));
}

fn push_segs_children(v: &mut Vec<Child>, ss: &Vec<PathSeg>)
    ensures
        final(v)@ == old(v)@ + segs_children(ss@),
{
    let mut j: usize = 0;
    while j < ss.len()
        invariant
            j <= ss.len(),
            v@ == old(v)@ + segs_children(ss@.take(j as int)),
        decreases ss.len() - j,
    {
        push_seg_children(v, &ss[j]);
        proof {
            lemma_segs_children_take_step(ss@, j as int);
        }
        j += 1;
    }
    assert(ss@.take(ss@.len() as int) =~= ss@);
}

fn push_entry_children(v: &mut Vec<Child>, e: &SetEntry)
    ensures
        final(v)@ == old(v)@ + entry_children(*e),
{
    match e {
        SetEntry::Assign { path, assign, value, semi } => {
            push_segs_children(v, path);
            v.push(Child::Meta(*assign));
            v.push(Child::Node(*value));
            v.push(Child::Meta(*semi));
        },
        SetEntry::Inherit { inherit, from, idents, semi } => {
            v.push(Child::Meta(*inherit));
            match from {
                Some((o, n, c)) => {
                    v.push(Child::Meta(*o));
                    v.push(Child::Node(*n));
                    v.push(Child::Meta(*c));
                },
                None => {},
            }
            let ghost mid = v@;
            let mut j: usize = 0;
            while j < idents.len()
                invariant
                    j <= idents.len(),
                    v@ == mid + idents_children(idents@.take(j as int)),
                decreases idents.len() - j,
            {
                v.push(Child::Meta(idents[j]));
                proof {
                    lemma_idents_children_take_step(idents@, j as int);
                }
                j += 1;
            }
            assert(idents@.take(idents@.len() as int) =~= idents@);
            v.push(Child::Meta(*semi));
        },
        SetEntry::Error { .. } => {},
    }
    assert(v@ =~= old(v)@ + entry_children(*e));
}

fn push_entries_children(v: &mut Vec<Child>, es: &Vec<SetEntry>)
    ensures
        final(v)@ == old(v)@ + entries_children(es@),
{
    let mut j: usize = 0;
    while j < es.len()
        invariant
            j <= es.len(),
            v@ == old(v)@ + entries_children(es@.take(j as int)),
        decreases es.len() - j,
    {
        push_entry_children(v, &es[j]);
        proof {
            lemma_entries_children_take_step(es@, j as int);
        }
        j += 1;
    }
    assert(es@.take(es@.len() as int) =~= es@);
}

fn push_parts_children(v: &mut Vec<Child>, ps: &Vec<InterpolPart>)
    ensures
        final(v)@ == old(v)@ + parts_children(ps@),
{
    let mut j: usize = 0;
    while j < ps.len()
        invariant
            j <= ps.len(),
            v@ == old(v)@ + parts_children(ps@.take(j as int)),
        decreases ps.len() - j,
    {
        match &ps[j] {
            InterpolPart::Literal { meta, .. } => v.push(Child::Meta(*meta)),
            InterpolPart::Ast { node } => v.push(Child::Node(*node)),
        }
        proof {
            lemma_parts_children_take_step(ps@, j as int);
            assert(v@ =~= old(v)@ + parts_children(ps@.take(j + 1 as int)));
        }
        j += 1;
    }
    assert(ps@.take(ps@.len() as int) =~= ps@);
}

fn push_pat_entries_children(v: &mut Vec<Child>, es: &Vec<PatEntry>)
    ensures
        final(v)@ == old(v)@ + pat_entries_children(es@),
{
    let mut j: usize = 0;
    while j < es.len()
        invariant
            j <= es.len(),
            v@ == old(v)@ + pat_entries_children(es@.take(j as int)),
        decreases es.len() - j,
    {
        let e = &es[j];
        v.push(Child::Meta(e.name));
        match &e.default {
            Some((q, d)) => {
                v.push(Child::Meta(*q));
                v.push(Child::Node(*d));
            },
            None => {},
        }
        match &e.comma {
            Some(c) => v.push(Child::Meta(*c)),
            None => {},
        }
        proof {
            lemma_pat_entries_children_take_step(es@, j as int);
            assert(v@ =~= old(v)@ + pat_entries_children(es@.take(j + 1 as int)));
        }
        j += 1;
    }
    assert(es@.take(es@.len() as int) =~= es@);
}

fn push_nodes_children(v: &mut Vec<Child>, ns: &Vec<NodeId>)
    ensures
        final(v)@ == old(v)@ + nodes_children(ns@),
{
    let mut j: usize = 0;
    while j < ns.len()
        invariant
            j <= ns.len(),
            v@ == old(v)@ + nodes_children(ns@.take(j as int)),
        decreases ns.len() - j,
    {
        v.push(Child::Node(ns[j]));
        proof {
            lemma_nodes_children_take_step(ns@, j as int);
        }
        j += 1;
    }
    assert(ns@.take(ns@.len() as int) =~= ns@);
}

fn push_arg_children(v: &mut Vec<Child>, a: &LambdaArg)
    ensures
        final(v)@ == old(v)@ + arg_children(*a),
{
    match a {
        LambdaArg::Ident { meta } => v.push(Child::Meta(*meta)),
        LambdaArg::Pattern { open, entries, ellipsis, close, bind } => {
            match bind {
                Some(b) => if b.prefix {
                    v.push(Child::Meta(b.ident));
                    v.push(Child::Meta(b.at));
                },
                None => {},
            }
            v.push(Child::Meta(*open));
            push_pat_entries_children(v, entries);
            match ellipsis {
                Some(e) => v.push(Child::Meta(*e)),
                None => {},
            }
            v.push(Child::Meta(*close));
            match bind {
                Some(b) => if !b.prefix {
                    v.push(Child::Meta(b.at));
                    v.push(Child::Meta(b.ident));
                },
                None => {},
            }
        },
    }
    assert(v@ =~= old(v)@ + arg_children(*a));
}

/// Build the children of one node as a vector, in source order.
fn node_children_exec(n: &ASTType) -> (v: Vec<Child>)
    ensures
        v@ == node_children(*n),
{
    let mut v: Vec<Child> = Vec::new();
    match n {
        ASTType::Interpol { parts, .. } => {
            push_parts_children(&mut v, parts);
        },
        ASTType::Lambda { arg, colon, body } => {
            push_arg_children(&mut v, arg);
            v.push(Child::Meta(*colon));
            v.push(Child::Node(*body));
        },
        ASTType::List { open, items, close } => {
            v.push(Child::Meta(*open));
            push_nodes_children(&mut v, items);
            v.push(Child::Meta(*close));
        },
        ASTType::Parens { open, inner, close } => {
            v.push(Child::Meta(*open));
            v.push(Child::Node(*inner));
            v.push(Child::Meta(*close));
        },
        ASTType::AttrSet { recursive, open, values, close } => {
            match recursive {
                Some(r) => v.push(Child::Meta(*r)),
                None => {},
            }
            v.push(Child::Meta(*open));
            push_entries_children(&mut v, values);
            v.push(Child::Meta(*close));
        },
        ASTType::Value { meta } => v.push(Child::Meta(*meta)),
        ASTType::Var { meta } => v.push(Child::Meta(*meta)),
        ASTType::Assert { assert_meta, condition, semi, rest } => {
            v.push(Child::Meta(*assert_meta));
            v.push(Child::Node(*condition));
            v.push(Child::Meta(*semi));
            v.push(Child::Node(*rest));
        },
        ASTType::IfElse { if_meta, condition, taken_meta, taken_body, else_meta, else_body } => {
            v.push(Child::Meta(*if_meta));
            v.push(Child::Node(*condition));
            v.push(Child::Meta(*taken_meta));
            v.push(Child::Node(*taken_body));
            v.push(Child::Meta(*else_meta));
            v.push(Child::Node(*else_body));
        },
        ASTType::Import { meta, path } => {
            v.push(Child::Meta(*meta));
            v.push(Child::Node(*path));
        },
        ASTType::Let { let_meta, open, values, close } => {
            v.push(Child::Meta(*let_meta));
            v.push(Child::Meta(*open));
            push_entries_children(&mut v, values);
            v.push(Child::Meta(*close));
        },
        ASTType::LetIn { let_meta, values, in_meta, body } => {
            v.push(Child::Meta(*let_meta));
            push_entries_children(&mut v, values);
            v.push(Child::Meta(*in_meta));
            v.push(Child::Node(*body));
        },
        ASTType::With { with, namespace, semi, body } => {
            v.push(Child::Meta(*with));
            v.push(Child::Node(*namespace));
            v.push(Child::Meta(*semi));
            v.push(Child::Node(*body));
        },
        ASTType::Apply { func, arg } => {
            v.push(Child::Node(*func));
            v.push(Child::Node(*arg));
        },
        ASTType::Dynamic { open, inner, close } => {
            v.push(Child::Meta(*open));
            v.push(Child::Node(*inner));
            v.push(Child::Meta(*close));
        },
        ASTType::IndexSet { indexed, dot, attr } => {
            v.push(Child::Node(*indexed));
            v.push(Child::Meta(*dot));
            v.push(Child::Node(*attr));
        },
        ASTType::OrDefault { indexed, dot, attr, or, default } => {
            v.push(Child::Node(*indexed));
            v.push(Child::Meta(*dot));
            v.push(Child::Node(*attr));
            v.push(Child::Meta(*or));
            v.push(Child::Node(*default));
        },
        ASTType::Unary { op, value } => {
            v.push(Child::Meta(*op));
            v.push(Child::Node(*value));
        },
        ASTType::Operation { left, op, right } => {
            v.push(Child::Node(*left));
            v.push(Child::Meta(*op));
            v.push(Child::Node(*right));
        },
        ASTType::Error { items } => {
            let mut j: usize = 0;
            while j < items.len()
                invariant
                    j <= items.len(),
                    v@ == items@.take(j as int),
                decreases items.len() - j,
            {
                v.push(items[j]);
                assert(v@ =~= items@.take(j + 1 as int));
                j += 1;
            }
            assert(items@.take(items@.len() as int) =~= items@);
        },
    }
    assert(v@ =~= node_children(*n));
    v
}

/// A finite, restartable, order-preserving enumerator over the children of
/// one node, created by `ASTType::children`.
pub struct ChildrenIter {
    /// The children, in source order.
    pub items: Vec<Child>,
    /// The position of the next child to hand out.
    pub index: usize,
}

impl ChildrenIter {
    /// Hand out the next child, left to right, or nothing past the end.
    pub fn next(&mut self) -> (r: Option<Child>)
        ensures
            final(self).items == old(self).items,
            old(self).index < old(self).items@.len() ==> {
                &&& r == Some(old(self).items@[old(self).index as int])
                &&& final(self).index == old(self).index + 1
            },
            old(self).index >= old(self).items@.len() ==> {
                &&& r is None
                &&& final(self).index == old(self).index
            },
    {
        if self.index < self.items.len() {
            let c = self.items[self.index];
            self.index += 1;
            Some(c)
        } else {
            None
        }
    }
}

impl ASTType {
    /// Return an enumerator over all the children of this node, in
    /// left-to-right source order.  Restarting (calling again) always yields
    /// the same sequence for the same node value.
    pub fn children(&self) -> (r: ChildrenIter)
        ensures
            r.items@ == node_children(*self),
            r.index == 0,
    {
        ChildrenIter { items: node_children_exec(self), index: 0 }
    }

    /// Index the children of this node.  The mapping from index to logical
    /// field is deterministic and matches left-to-right source order for one
    /// fixed node value, but which field an index denotes is unspecified
    /// across node shapes: resolve indices only through this enumeration.
    pub fn child(&self, index: usize) -> (r: Option<Child>)
        ensures
            index < node_children(*self).len() ==> r == Some(
                node_children(*self)[index as int],
            ),
            index >= node_children(*self).len() ==> r is None,
    {
        let v = node_children_exec(self);
        if index < v.len() {
            Some(v[index])
        } else {
            None
        }
    }
}

// ---------------------------------------------------------------------------
// The mutating counterpart.  It is proved against the same `node_children`
// sequence as the read-only enumeration, so the two views agree on count and
// order by construction: an index-based edit lands exactly on the child the
// read-only enumeration reports at that index.
// ---------------------------------------------------------------------------

pub open spec fn is_meta_child(c: Child) -> bool {
    c is Meta
}

/// The children `cs` fit into `v` at offset `k`, slot kind by slot kind.
pub open spec fn slots_ok_at(v: Seq<Child>, k: int, cs: Seq<Child>) -> bool {
    &&& 0 <= k
    &&& k + cs.len() <= v.len()
    &&& forall|i: int|
        0 <= i < cs.len() ==> is_meta_child(v[k + i]) == is_meta_child(#[trigger] cs[i])
}

pub proof fn lemma_segs_children_split(ss: Seq<PathSeg>, j: int)
    requires
        0 <= j < ss.len(),
    ensures
        segs_children(ss) == segs_children(ss.take(j)) + seg_children(ss[j]) + segs_children(
            ss.skip(j + 1),
        ),
    decreases ss.len(),
{
    if j == ss.len() - 1 {
        assert(ss.drop_last() =~= ss.take(j));
        assert(ss.skip(j + 1) =~= Seq::<PathSeg>::empty());
        assert(segs_children(ss) =~= segs_children(ss.take(j)) + seg_children(ss[j])
            + segs_children(ss.skip(j + 1)));
    } else {
        lemma_segs_children_split(ss.drop_last(), j);
        assert(ss.drop_last().take(j) =~= ss.take(j));
        assert(ss.drop_last()[j] == ss[j]);
        assert(ss.skip(j + 1).drop_last() =~= ss.drop_last().skip(j + 1));
        assert(ss.skip(j + 1).last() == ss.last());
        assert(segs_children(ss.skip(j + 1)) == segs_children(ss.drop_last().skip(j + 1))
            + seg_children(ss.last()));
        assert(segs_children(ss) =~= segs_children(ss.take(j)) + seg_children(ss[j])
            + segs_children(ss.skip(j + 1)));
    }
}

pub proof fn lemma_idents_children_split(ms: Seq<MetaId>, j: int)
    requires
        0 <= j < ms.len(),
    ensures
        idents_children(ms) == idents_children(ms.take(j)) + seq![Child::Meta(ms[j])]
            + idents_children(ms.skip(j + 1)),
    decreases ms.len(),
{
    if j == ms.len() - 1 {
        assert(ms.drop_last() =~= ms.take(j));
        assert(ms.skip(j + 1) =~= Seq::<MetaId>::empty());
        assert(idents_children(ms) =~= idents_children(ms.take(j)) + seq![Child::Meta(ms[j])]
            + idents_children(ms.skip(j + 1)));
    } else {
        lemma_idents_children_split(ms.drop_last(), j);
        assert(ms.drop_last().take(j) =~= ms.take(j));
        assert(ms.drop_last()[j] == ms[j]);
        assert(ms.skip(j + 1).drop_last() =~= ms.drop_last().skip(j + 1));
        assert(ms.skip(j + 1).last() == ms.last());
        assert(idents_children(ms.skip(j + 1)) == idents_children(ms.drop_last().skip(j + 1))
            + seq![Child::Meta(ms.last())]);
        assert(idents_children(ms) =~= idents_children(ms.take(j)) + seq![Child::Meta(ms[j])]
            + idents_children(ms.skip(j + 1)));
    }
}

pub proof fn lemma_entries_children_split(es: Seq<SetEntry>, j: int)
    requires
        0 <= j < es.len(),
    ensures
        entries_children(es) == entries_children(es.take(j)) + entry_children(es[j])
            + entries_children(es.skip(j + 1)),
    decreases es.len(),
{
    if j == es.len() - 1 {
        assert(es.drop_last() =~= es.take(j));
        assert(es.skip(j + 1) =~= Seq::<SetEntry>::empty());
        assert(entries_children(es) =~= entries_children(es.take(j)) + entry_children(es[j])
            + entries_children(es.skip(j + 1)));
    } else {
        lemma_entries_children_split(es.drop_last(), j);
        assert(es.drop_last().take(j) =~= es.take(j));
        assert(es.drop_last()[j] == es[j]);
        assert(es.skip(j + 1).drop_last() =~= es.drop_last().skip(j + 1));
        assert(es.skip(j + 1).last() == es.last());
        assert(entries_children(es.skip(j + 1)) == entries_children(es.drop_last().skip(j + 1))
            + entry_children(es.last()));
        assert(entries_children(es) =~= entries_children(es.take(j)) + entry_children(es[j])
            + entries_children(es.skip(j + 1)));
    }
}

pub proof fn lemma_parts_children_split(ps: Seq<InterpolPart>, j: int)
    requires
        0 <= j < ps.len(),
    ensures
        parts_children(ps) == parts_children(ps.take(j)) + part_children(ps[j]) + parts_children(
            ps.skip(j + 1),
        ),
    decreases ps.len(),
{
    if j == ps.len() - 1 {
        assert(ps.drop_last() =~= ps.take(j));
        assert(ps.skip(j + 1) =~= Seq::<InterpolPart>::empty());
        assert(parts_children(ps) =~= parts_children(ps.take(j)) + part_children(ps[j])
            + parts_children(ps.skip(j + 1)));
    } else {
        lemma_parts_children_split(ps.drop_last(), j);
        assert(ps.drop_last().take(j) =~= ps.take(j));
        assert(ps.drop_last()[j] == ps[j]);
        assert(ps.skip(j + 1).drop_last() =~= ps.drop_last().skip(j + 1));
        assert(ps.skip(j + 1).last() == ps.last());
        assert(parts_children(ps.skip(j + 1)) == parts_children(ps.drop_last().skip(j + 1))
            + part_children(ps.last()));
        assert(parts_children(ps) =~= parts_children(ps.take(j)) + part_children(ps[j])
            + parts_children(ps.skip(j + 1)));
    }
}

pub proof fn lemma_pat_entries_children_split(es: Seq<PatEntry>, j: int)
    requires
        0 <= j < es.len(),
    ensures
        pat_entries_children(es) == pat_entries_children(es.take(j)) + pat_entry_children(es[j])
            + pat_entries_children(es.skip(j + 1)),
    decreases es.len(),
{
    if j == es.len() - 1 {
        assert(es.drop_last() =~= es.take(j));
        assert(es.skip(j + 1) =~= Seq::<PatEntry>::empty());
        assert(pat_entries_children(es) =~= pat_entries_children(es.take(j))
            + pat_entry_children(es[j]) + pat_entries_children(es.skip(j + 1)));
    } else {
        lemma_pat_entries_children_split(es.drop_last(), j);
        assert(es.drop_last().take(j) =~= es.take(j));
        assert(es.drop_last()[j] == es[j]);
        assert(es.skip(j + 1).drop_last() =~= es.drop_last().skip(j + 1));
        assert(es.skip(j + 1).last() == es.last());
        assert(pat_entries_children(es.skip(j + 1)) == pat_entries_children(
            es.drop_last().skip(j + 1),
        ) + pat_entry_children(es.last()));
        assert(pat_entries_children(es) =~= pat_entries_children(es.take(j))
            + pat_entry_children(es[j]) + pat_entries_children(es.skip(j + 1)));
    }
}

pub proof fn lemma_nodes_children_split(ns: Seq<NodeId>, j: int)
    requires
        0 <= j < ns.len(),
    ensures
        nodes_children(ns) == nodes_children(ns.take(j)) + seq![Child::Node(ns[j])]
            + nodes_children(ns.skip(j + 1)),
    decreases ns.len(),
{
    if j == ns.len() - 1 {
        assert(ns.drop_last() =~= ns.take(j));
        assert(ns.skip(j + 1) =~= Seq::<NodeId>::empty());
        assert(nodes_children(ns) =~= nodes_children(ns.take(j)) + seq![Child::Node(ns[j])]
            + nodes_children(ns.skip(j + 1)));
    } else {
        lemma_nodes_children_split(ns.drop_last(), j);
        assert(ns.drop_last().take(j) =~= ns.take(j));
        assert(ns.drop_last()[j] == ns[j]);
        assert(ns.skip(j + 1).drop_last() =~= ns.drop_last().skip(j + 1));
        assert(ns.skip(j + 1).last() == ns.last());
        assert(nodes_children(ns.skip(j + 1)) == nodes_children(ns.drop_last().skip(j + 1))
            + seq![Child::Node(ns.last())]);
        assert(nodes_children(ns) =~= nodes_children(ns.take(j)) + seq![Child::Node(ns[j])]
            + nodes_children(ns.skip(j + 1)));
    }
}

fn rb_meta(v: &Vec<Child>, k: usize) -> (r: (MetaId, usize))
    requires
        k < v@.len(),
        is_meta_child(v@[k as int]),
    ensures
        v@[k as int] == Child::Meta(r.0),
        r.1 == k + 1,
{
    let _len = v.len();
    match v[k] {
        Child::Meta(m) => (m, k + 1),
        Child::Node(_) => {
            proof {
                assert(false);
            }
            (0, k + 1)
        },
    }
}

fn rb_node(v: &Vec<Child>, k: usize) -> (r: (NodeId, usize))
    requires
        k < v@.len(),
        !is_meta_child(v@[k as int]),
    ensures
        v@[k as int] == Child::Node(r.0),
        r.1 == k + 1,
{
    let _len = v.len();
    match v[k] {
        Child::Node(n) => (n, k + 1),
        Child::Meta(_) => {
            proof {
                assert(false);
            }
            (0, k + 1)
        },
    }
}

fn rebuild_segs(shape: &Vec<PathSeg>, v: &Vec<Child>, k: usize) -> (r: (Vec<PathSeg>, usize))
    requires
        slots_ok_at(v@, k as int, segs_children(shape@)),
    ensures
        k <= r.1 <= v@.len(),
        r.1 - k == segs_children(shape@).len(),
        segs_children(r.0@) == v@.subrange(k as int, r.1 as int),
{
    let mut out: Vec<PathSeg> = Vec::new();
    let mut cur: usize = k;
    let mut j: usize = 0;
    while j < shape.len()
        invariant
            j <= shape.len(),
            k <= cur <= v@.len(),
            slots_ok_at(v@, k as int, segs_children(shape@)),
            cur - k == segs_children(shape@.take(j as int)).len(),
            segs_children(out@) == v@.subrange(k as int, cur as int),
        decreases shape.len() - j,
    {
        proof {
            lemma_segs_children_split(shape@, j as int);
            assert forall|i: int| 0 <= i < seg_children(shape@[j as int]).len() implies is_meta_child(
                v@[cur + i],
            ) == is_meta_child(#[trigger] seg_children(shape@[j as int])[i]) by {
                let whole = segs_children(shape@);
                let pre = segs_children(shape@.take(j as int));
                assert(whole[pre.len() + i] == seg_children(shape@[j as int])[i]);
                assert(is_meta_child(v@[k + (pre.len() + i)]) == is_meta_child(
                    whole[pre.len() + i],
                ));
            }
            assert(slots_ok_at(v@, cur as int, seg_children(shape@[j as int])));
        }
        let s = &shape[j];
        let ghost cur0 = cur as int;
        let name: SegName;
        match &s.name {
            SegName::Ident(_) => {
                proof {
                    assert(is_meta_child(seg_children(shape@[j as int])[0]));
                    assert(seg_children(shape@[j as int]).len() >= 1);
                }
                let (m, k2) = rb_meta(v, cur);
                name = SegName::Ident(m);
                cur = k2;
            },
            SegName::Dynamic(_) => {
                proof {
                    assert(!is_meta_child(seg_children(shape@[j as int])[0]));
                    assert(seg_children(shape@[j as int]).len() >= 1);
                }
                let (n, k2) = rb_node(v, cur);
                name = SegName::Dynamic(n);
                cur = k2;
            },
        }
        let dot: Option<MetaId>;
        match &s.dot {
            Some(_) => {
                proof {
                    assert(is_meta_child(seg_children(shape@[j as int])[1]));
                    assert(seg_children(shape@[j as int]).len() == 2);
                }
                let (m, k2) = rb_meta(v, cur);
                dot = Some(m);
                cur = k2;
            },
            None => {
                dot = None;
            },
        }
        let seg = PathSeg { name, dot };
        let ghost out0 = out@;
        proof {
            assert(seg_children(seg) =~= v@.subrange(cur0, cur as int));
            lemma_segs_children_take_step(shape@, j as int);
        }
        out.push(seg);
        proof {
            assert(out@.drop_last() =~= out0);
            assert(v@.subrange(k as int, cur as int) =~= v@.subrange(k as int, cur0)
                + v@.subrange(cur0, cur as int));
            assert(segs_children(out@) =~= v@.subrange(k as int, cur as int));
        }
        j += 1;
    }
    assert(shape@.take(shape@.len() as int) =~= shape@);
    (out, cur)
}

fn rebuild_idents(shape: &Vec<MetaId>, v: &Vec<Child>, k: usize) -> (r: (Vec<MetaId>, usize))
    requires
        slots_ok_at(v@, k as int, idents_children(shape@)),
    ensures
        k <= r.1 <= v@.len(),
        r.1 - k == idents_children(shape@).len(),
        idents_children(r.0@) == v@.subrange(k as int, r.1 as int),
{
    let mut out: Vec<MetaId> = Vec::new();
    let mut cur: usize = k;
    let mut j: usize = 0;
    while j < shape.len()
        invariant
            j <= shape.len(),
            k <= cur <= v@.len(),
            slots_ok_at(v@, k as int, idents_children(shape@)),
            cur - k == idents_children(shape@.take(j as int)).len(),
            idents_children(out@) == v@.subrange(k as int, cur as int),
        decreases shape.len() - j,
    {
        proof {
            lemma_idents_children_split(shape@, j as int);
            let whole = idents_children(shape@);
            let pre = idents_children(shape@.take(j as int));
            assert(whole[pre.len() as int] == Child::Meta(shape@[j as int]));
            assert(is_meta_child(v@[k + pre.len() as int]) == is_meta_child(whole[pre.len() as int]));
            assert(is_meta_child(v@[cur as int]));
        }
        let ghost out0 = out@;
        let ghost cur0 = cur as int;
        let (m, k2) = rb_meta(v, cur);
        proof {
            lemma_idents_children_take_step(shape@, j as int);
        }
        out.push(m);
        cur = k2;
        proof {
            assert(out@.drop_last() =~= out0);
            assert(v@.subrange(cur0, cur as int) =~= seq![Child::Meta(m)]);
            assert(v@.subrange(k as int, cur as int) =~= v@.subrange(k as int, cur0)
                + v@.subrange(cur0, cur as int));
            assert(idents_children(out@) =~= v@.subrange(k as int, cur as int));
        }
        j += 1;
    }
    assert(shape@.take(shape@.len() as int) =~= shape@);
    (out, cur)
}

fn copy_char_vec(items: &Vec<char>) -> (r: Vec<char>)
    ensures
        r@ == items@,
{
    let mut out: Vec<char> = Vec::new();
    let mut j: usize = 0;
    while j < items.len()
        invariant
            j <= items.len(),
            out@ == items@.take(j as int),
        decreases items.len() - j,
    {
        out.push(items[j]);
        assert(out@ =~= items@.take(j + 1 as int));
        j += 1;
    }
    assert(items@.take(items@.len() as int) =~= items@);
    out
}

fn copy_children_vec(items: &Vec<Child>) -> (r: Vec<Child>)
    ensures
        r@ == items@,
{
    let mut out: Vec<Child> = Vec::new();
    let mut j: usize = 0;
    while j < items.len()
        invariant
            j <= items.len(),
            out@ == items@.take(j as int),
        decreases items.len() - j,
    {
        out.push(items[j]);
        assert(out@ =~= items@.take(j + 1 as int));
        j += 1;
    }
    assert(items@.take(items@.len() as int) =~= items@);
    out
}

fn rebuild_entry(shape: &SetEntry, v: &Vec<Child>, k: usize) -> (r: (SetEntry, usize))
    requires
        slots_ok_at(v@, k as int, entry_children(*shape)),
    ensures
        k <= r.1 <= v@.len(),
        r.1 - k == entry_children(*shape).len(),
        entry_children(r.0) == v@.subrange(k as int, r.1 as int),
{
    match shape {
        SetEntry::Assign { path, .. } => {
            proof {
                let cs = entry_children(*shape);
                let pre = segs_children(path@);
                assert forall|i: int| 0 <= i < pre.len() implies is_meta_child(v@[k + i])
                    == is_meta_child(#[trigger] pre[i]) by {
                    assert(cs[i] == pre[i]);
                }
                assert(slots_ok_at(v@, k as int, pre));
                assert(is_meta_child(cs[pre.len() as int]));
                assert(!is_meta_child(cs[pre.len() as int + 1]));
                assert(is_meta_child(cs[pre.len() as int + 2]));
            }
            let (path2, k1) = rebuild_segs(path, v, k);
            let (assign2, k2) = rb_meta(v, k1);
            let (value2, k3) = rb_node(v, k2);
            let (semi2, k4) = rb_meta(v, k3);
            let e = SetEntry::Assign { path: path2, assign: assign2, value: value2, semi: semi2 };
            proof {
                assert(entry_children(e) =~= v@.subrange(k as int, k4 as int));
            }
            (e, k4)
        },
        SetEntry::Inherit { from, idents, .. } => {
            let ghost cs = entry_children(*shape);
            proof {
                assert(is_meta_child(cs[0]));
            }
            let (inherit2, k1) = rb_meta(v, k);
            let from2: Option<(MetaId, NodeId, MetaId)>;
            let kf: usize;
            match from {
                Some(_) => {
                    proof {
                        assert(is_meta_child(cs[1]));
                        assert(!is_meta_child(cs[2]));
                        assert(is_meta_child(cs[3]));
                    }
                    let (o2, ka) = rb_meta(v, k1);
                    let (n2, kb) = rb_node(v, ka);
                    let (c2, kc) = rb_meta(v, kb);
                    from2 = Some((o2, n2, c2));
                    kf = kc;
                },
                None => {
                    from2 = None;
                    kf = k1;
                },
            }
            proof {
                let mid = idents_children(idents@);
                let off = kf - k;
                assert forall|i: int| 0 <= i < mid.len() implies is_meta_child(v@[kf + i])
                    == is_meta_child(#[trigger] mid[i]) by {
                    assert(cs[off + i] == mid[i]);
                    assert(is_meta_child(v@[k + (off + i)]) == is_meta_child(cs[off + i]));
                }
                assert(slots_ok_at(v@, kf as int, mid));
            }
            let (idents2, k2) = rebuild_idents(idents, v, kf);
            proof {
                assert(is_meta_child(cs[cs.len() - 1]));
                assert(is_meta_child(v@[k2 as int]));
            }
            let (semi2, k3) = rb_meta(v, k2);
            let e = SetEntry::Inherit { inherit: inherit2, from: from2, idents: idents2, semi: semi2 };
            proof {
                assert(entry_children(e) =~= v@.subrange(k as int, k3 as int));
            }
            (e, k3)
        },
        SetEntry::Error { items } => {
            let e = SetEntry::Error { items: copy_children_vec(items) };
            proof {
                assert(entry_children(e) =~= v@.subrange(k as int, k as int));
            }
            (e, k)
        },
    }
}

fn rebuild_entries(shape: &Vec<SetEntry>, v: &Vec<Child>, k: usize) -> (r: (Vec<SetEntry>, usize))
    requires
        slots_ok_at(v@, k as int, entries_children(shape@)),
    ensures
        k <= r.1 <= v@.len(),
        r.1 - k == entries_children(shape@).len(),
        entries_children(r.0@) == v@.subrange(k as int, r.1 as int),
{
    let mut out: Vec<SetEntry> = Vec::new();
    let mut cur: usize = k;
    let mut j: usize = 0;
    while j < shape.len()
        invariant
            j <= shape.len(),
            k <= cur <= v@.len(),
            slots_ok_at(v@, k as int, entries_children(shape@)),
            cur - k == entries_children(shape@.take(j as int)).len(),
            entries_children(out@) == v@.subrange(k as int, cur as int),
        decreases shape.len() - j,
    {
        proof {
            lemma_entries_children_split(shape@, j as int);
            assert forall|i: int| 0 <= i < entry_children(shape@[j as int]).len() implies is_meta_child(
                v@[cur + i],
            ) == is_meta_child(#[trigger] entry_children(shape@[j as int])[i]) by {
                let whole = entries_children(shape@);
                let pre = entries_children(shape@.take(j as int));
                assert(whole[pre.len() + i] == entry_children(shape@[j as int])[i]);
                assert(is_meta_child(v@[k + (pre.len() + i)]) == is_meta_child(
                    whole[pre.len() + i],
                ));
            }
            assert(slots_ok_at(v@, cur as int, entry_children(shape@[j as int])));
        }
        let ghost out0 = out@;
        let ghost cur0 = cur as int;
        let (e, k2) = rebuild_entry(&shape[j], v, cur);
        proof {
            lemma_entries_children_take_step(shape@, j as int);
        }
        out.push(e);
        cur = k2;
        proof {
            assert(out@.drop_last() =~= out0);
            assert(v@.subrange(k as int, cur as int) =~= v@.subrange(k as int, cur0)
                + v@.subrange(cur0, cur as int));
            assert(entries_children(out@) =~= v@.subrange(k as int, cur as int));
        }
        j += 1;
    }
    assert(shape@.take(shape@.len() as int) =~= shape@);
    (out, cur)
}

fn rebuild_parts(shape: &Vec<InterpolPart>, v: &Vec<Child>, k: usize) -> (r: (
    Vec<InterpolPart>,
    usize,
))
    requires
        slots_ok_at(v@, k as int, parts_children(shape@)),
    ensures
        k <= r.1 <= v@.len(),
        r.1 - k == parts_children(shape@).len(),
        parts_children(r.0@) == v@.subrange(k as int, r.1 as int),
{
    let mut out: Vec<InterpolPart> = Vec::new();
    let mut cur: usize = k;
    let mut j: usize = 0;
    while j < shape.len()
        invariant
            j <= shape.len(),
            k <= cur <= v@.len(),
            slots_ok_at(v@, k as int, parts_children(shape@)),
            cur - k == parts_children(shape@.take(j as int)).len(),
            parts_children(out@) == v@.subrange(k as int, cur as int),
        decreases shape.len() - j,
    {
        proof {
            lemma_parts_children_split(shape@, j as int);
            assert forall|i: int| 0 <= i < part_children(shape@[j as int]).len() implies is_meta_child(
                v@[cur + i],
            ) == is_meta_child(#[trigger] part_children(shape@[j as int])[i]) by {
                let whole = parts_children(shape@);
                let pre = parts_children(shape@.take(j as int));
                assert(whole[pre.len() + i] == part_children(shape@[j as int])[i]);
                assert(is_meta_child(v@[k + (pre.len() + i)]) == is_meta_child(
                    whole[pre.len() + i],
                ));
            }
            assert(slots_ok_at(v@, cur as int, part_children(shape@[j as int])));
        }
        let p: InterpolPart;
        let ghost out0 = out@;
        let ghost cur0 = cur as int;
        match &shape[j] {
            InterpolPart::Literal { content, .. } => {
                proof {
                    assert(is_meta_child(part_children(shape@[j as int])[0]));
                }
                let (m, k2) = rb_meta(v, cur);
                p = InterpolPart::Literal { meta: m, content: copy_char_vec(content) };
                cur = k2;
            },
            InterpolPart::Ast { .. } => {
                proof {
                    assert(!is_meta_child(part_children(shape@[j as int])[0]));
                }
                let (n, k2) = rb_node(v, cur);
                p = InterpolPart::Ast { node: n };
                cur = k2;
            },
        }
        proof {
            lemma_parts_children_take_step(shape@, j as int);
        }
        out.push(p);
        proof {
            assert(out@.drop_last() =~= out0);
            assert(part_children(p) =~= v@.subrange(cur0, cur as int));
            assert(v@.subrange(k as int, cur as int) =~= v@.subrange(k as int, cur0)
                + v@.subrange(cur0, cur as int));
            assert(parts_children(out@) =~= v@.subrange(k as int, cur as int));
        }
        j += 1;
    }
    assert(shape@.take(shape@.len() as int) =~= shape@);
    (out, cur)
}

fn rebuild_pat_entries(shape: &Vec<PatEntry>, v: &Vec<Child>, k: usize) -> (r: (
    Vec<PatEntry>,
    usize,
))
    requires
        slots_ok_at(v@, k as int, pat_entries_children(shape@)),
    ensures
        k <= r.1 <= v@.len(),
        r.1 - k == pat_entries_children(shape@).len(),
        pat_entries_children(r.0@) == v@.subrange(k as int, r.1 as int),
{
    let mut out: Vec<PatEntry> = Vec::new();
    let mut cur: usize = k;
    let mut j: usize = 0;
    while j < shape.len()
        invariant
            j <= shape.len(),
            k <= cur <= v@.len(),
            slots_ok_at(v@, k as int, pat_entries_children(shape@)),
            cur - k == pat_entries_children(shape@.take(j as int)).len(),
            pat_entries_children(out@) == v@.subrange(k as int, cur as int),
        decreases shape.len() - j,
    {
        proof {
            lemma_pat_entries_children_split(shape@, j as int);
            assert forall|i: int| 0 <= i < pat_entry_children(shape@[j as int]).len() implies is_meta_child(
                v@[cur + i],
            ) == is_meta_child(#[trigger] pat_entry_children(shape@[j as int])[i]) by {
                let whole = pat_entries_children(shape@);
                let pre = pat_entries_children(shape@.take(j as int));
                assert(whole[pre.len() + i] == pat_entry_children(shape@[j as int])[i]);
                assert(is_meta_child(v@[k + (pre.len() + i)]) == is_meta_child(
                    whole[pre.len() + i],
                ));
            }
            assert(slots_ok_at(v@, cur as int, pat_entry_children(shape@[j as int])));
        }
        let e = &shape[j];
        let ghost cs = pat_entry_children(*e);
        let ghost cur0 = cur as int;
        proof {
            assert(is_meta_child(cs[0]));
        }
        let (name2, k1) = rb_meta(v, cur);
        cur = k1;
        let default2: Option<(MetaId, NodeId)>;
        match &e.default {
            Some(_) => {
                proof {
                    assert(is_meta_child(cs[1]));
                    assert(!is_meta_child(cs[2]));
                }
                let (q2, ka) = rb_meta(v, cur);
                let (d2, kb) = rb_node(v, ka);
                default2 = Some((q2, d2));
                cur = kb;
            },
            None => {
                default2 = None;
            },
        }
        let comma2: Option<MetaId>;
        match &e.comma {
            Some(_) => {
                proof {
                    assert(is_meta_child(cs[cs.len() - 1]));
                    assert(is_meta_child(v@[cur as int]));
                }
                let (c2, kc) = rb_meta(v, cur);
                comma2 = Some(c2);
                cur = kc;
            },
            None => {
                comma2 = None;
            },
        }
        let ne = PatEntry { name: name2, default: default2, comma: comma2 };
        let ghost out0 = out@;
        proof {
            assert(pat_entry_children(ne) =~= v@.subrange(cur0, cur as int));
            lemma_pat_entries_children_take_step(shape@, j as int);
        }
        out.push(ne);
        proof {
            assert(out@.drop_last() =~= out0);
            assert(v@.subrange(k as int, cur as int) =~= v@.subrange(k as int, cur0)
                + v@.subrange(cur0, cur as int));
            assert(pat_entries_children(out@) =~= v@.subrange(k as int, cur as int));
        }
        j += 1;
    }
    assert(shape@.take(shape@.len() as int) =~= shape@);
    (out, cur)
}

fn rebuild_nodes(shape: &Vec<NodeId>, v: &Vec<Child>, k: usize) -> (r: (Vec<NodeId>, usize))
    requires
        slots_ok_at(v@, k as int, nodes_children(shape@)),
    ensures
        k <= r.1 <= v@.len(),
        r.1 - k == nodes_children(shape@).len(),
        nodes_children(r.0@) == v@.subrange(k as int, r.1 as int),
{
    let mut out: Vec<NodeId> = Vec::new();
    let mut cur: usize = k;
    let mut j: usize = 0;
    while j < shape.len()
        invariant
            j <= shape.len(),
            k <= cur <= v@.len(),
            slots_ok_at(v@, k as int, nodes_children(shape@)),
            cur - k == nodes_children(shape@.take(j as int)).len(),
            nodes_children(out@) == v@.subrange(k as int, cur as int),
        decreases shape.len() - j,
    {
        proof {
            lemma_nodes_children_split(shape@, j as int);
            let whole = nodes_children(shape@);
            let pre = nodes_children(shape@.take(j as int));
            assert(whole[pre.len() as int] == Child::Node(shape@[j as int]));
            assert(is_meta_child(v@[k + pre.len() as int]) == is_meta_child(whole[pre.len() as int]));
            assert(!is_meta_child(v@[cur as int]));
        }
        let ghost out0 = out@;
        let ghost cur0 = cur as int;
        let (n, k2) = rb_node(v, cur);
        proof {
            lemma_nodes_children_take_step(shape@, j as int);
        }
        out.push(n);
        cur = k2;
        proof {
            assert(out@.drop_last() =~= out0);
            assert(v@.subrange(cur0, cur as int) =~= seq![Child::Node(n)]);
            assert(v@.subrange(k as int, cur as int) =~= v@.subrange(k as int, cur0)
                + v@.subrange(cur0, cur as int));
            assert(nodes_children(out@) =~= v@.subrange(k as int, cur as int));
        }
        j += 1;
    }
    assert(shape@.take(shape@.len() as int) =~= shape@);
    (out, cur)
}

fn rebuild_arg(shape: &LambdaArg, v: &Vec<Child>, k: usize) -> (r: (LambdaArg, usize))
    requires
        slots_ok_at(v@, k as int, arg_children(*shape)),
    ensures
        k <= r.1 <= v@.len(),
        r.1 - k == arg_children(*shape).len(),
        arg_children(r.0) == v@.subrange(k as int, r.1 as int),
{
    match shape {
        LambdaArg::Ident { .. } => {
            proof {
                assert(is_meta_child(arg_children(*shape)[0]));
            }
            let (m, k1) = rb_meta(v, k);
            let a = LambdaArg::Ident { meta: m };
            proof {
                assert(arg_children(a) =~= v@.subrange(k as int, k1 as int));
            }
            (a, k1)
        },
        LambdaArg::Pattern { entries, ellipsis, bind, .. } => {
            let ghost cs = arg_children(*shape);
            let mut cur: usize = k;
            let mut bind_pre: Option<(MetaId, MetaId)> = None;
            match bind {
                Some(b) => if b.prefix {
                    proof {
                        assert(is_meta_child(cs[0]));
                        assert(is_meta_child(cs[1]));
                    }
                    let (i2, ka) = rb_meta(v, cur);
                    let (a2, kb) = rb_meta(v, ka);
                    bind_pre = Some((a2, i2));
                    cur = kb;
                },
                None => {},
            }
            proof {
                assert(is_meta_child(cs[cur - k]));
            }
            let (open2, k1) = rb_meta(v, cur);
            cur = k1;
            proof {
                let mid = pat_entries_children(entries@);
                let off = cur - k;
                assert forall|i: int| 0 <= i < mid.len() implies is_meta_child(v@[cur + i])
                    == is_meta_child(#[trigger] mid[i]) by {
                    assert(cs[off + i] == mid[i]);
                    assert(is_meta_child(v@[k + (off + i)]) == is_meta_child(cs[off + i]));
                }
                assert(slots_ok_at(v@, cur as int, mid));
            }
            let (entries2, k2) = rebuild_pat_entries(entries, v, cur);
            cur = k2;
            let ellipsis2: Option<MetaId>;
            match ellipsis {
                Some(_) => {
                    proof {
                        assert(is_meta_child(cs[cur - k]));
                    }
                    let (e2, ka) = rb_meta(v, cur);
                    ellipsis2 = Some(e2);
                    cur = ka;
                },
                None => {
                    ellipsis2 = None;
                },
            }
            proof {
                assert(is_meta_child(cs[cur - k]));
            }
            let (close2, k3) = rb_meta(v, cur);
            cur = k3;
            let bind2: Option<PatBind>;
            match bind {
                Some(b) => if b.prefix {
                    let (a2, i2) = match bind_pre {
                        Some(p) => p,
                        None => {
                            proof {
                                assert(false);
                            }
                            (0, 0)
                        },
                    };
                    bind2 = Some(PatBind { at: a2, ident: i2, prefix: true });
                } else {
                    proof {
                        assert(is_meta_child(cs[cur - k]));
                        assert(is_meta_child(cs[cur - k + 1]));
                    }
                    let (a2, ka) = rb_meta(v, cur);
                    let (i2, kb) = rb_meta(v, ka);
                    bind2 = Some(PatBind { at: a2, ident: i2, prefix: false });
                    cur = kb;
                },
                None => {
                    bind2 = None;
                },
            }
            let a = LambdaArg::Pattern {
                open: open2,
                entries: entries2,
                ellipsis: ellipsis2,
                close: close2,
                bind: bind2,
            };
            proof {
                assert(arg_children(a) =~= v@.subrange(k as int, cur as int));
            }
            (a, cur)
        },
    }
}

fn rebuild_node(shape: &ASTType, v: &Vec<Child>) -> (r: ASTType)
    requires
        slots_ok_at(v@, 0, node_children(*shape)),
        v@.len() == node_children(*shape).len(),
    ensures
        node_children(r) == v@,
{
    let ghost cs = node_children(*shape);
    match shape {
        ASTType::Interpol { multiline, parts } => {
            let (parts2, k2) = rebuild_parts(parts, v, 0);
            let n = ASTType::Interpol { multiline: *multiline, parts: parts2 };
            proof {
                assert(node_children(n) =~= v@);
            }
            n
        },
        ASTType::Lambda { arg, .. } => {
            proof {
                let pre = arg_children(*arg);
                assert forall|i: int| 0 <= i < pre.len() implies is_meta_child(v@[i])
                    == is_meta_child(#[trigger] pre[i]) by {
                    assert(cs[i] == pre[i]);
                }
                assert(slots_ok_at(v@, 0, pre));
                assert(is_meta_child(cs[pre.len() as int]));
                assert(!is_meta_child(cs[pre.len() as int + 1]));
            }
            let (arg2, k1) = rebuild_arg(arg, v, 0);
            let (colon2, k2) = rb_meta(v, k1);
            let (body2, k3) = rb_node(v, k2);
            let n = ASTType::Lambda { arg: arg2, colon: colon2, body: body2 };
            proof {
                assert(node_children(n) =~= v@);
            }
            n
        },
        ASTType::List { items, .. } => {
            proof {
                assert(is_meta_child(cs[0]));
            }
            let (open2, k1) = rb_meta(v, 0);
            proof {
                let mid = nodes_children(items@);
                assert forall|i: int| 0 <= i < mid.len() implies is_meta_child(v@[1 + i])
                    == is_meta_child(#[trigger] mid[i]) by {
                    assert(cs[1 + i] == mid[i]);
                }
                assert(slots_ok_at(v@, 1, mid));
            }
            let (items2, k2) = rebuild_nodes(items, v, k1);
            proof {
                assert(is_meta_child(cs[cs.len() - 1]));
                assert(is_meta_child(v@[k2 as int]));
            }
            let (close2, k3) = rb_meta(v, k2);
            let n = ASTType::List { open: open2, items: items2, close: close2 };
            proof {
                assert(node_children(n) =~= v@);
            }
            n
        },
        ASTType::Parens { .. } => {
            proof {
                assert(is_meta_child(cs[0]));
                assert(!is_meta_child(cs[1]));
                assert(is_meta_child(cs[2]));
            }
            let (open2, k1) = rb_meta(v, 0);
            let (inner2, k2) = rb_node(v, k1);
            let (close2, k3) = rb_meta(v, k2);
            let n = ASTType::Parens { open: open2, inner: inner2, close: close2 };
            proof {
                assert(node_children(n) =~= v@);
            }
            n
        },
        ASTType::AttrSet { recursive, values, .. } => {
            let mut cur: usize = 0;
            let recursive2: Option<MetaId>;
            match recursive {
                Some(_) => {
                    proof {
                        assert(is_meta_child(cs[0]));
                    }
                    let (m, ka) = rb_meta(v, 0);
                    recursive2 = Some(m);
                    cur = ka;
                },
                None => {
                    recursive2 = None;
                },
            }
            proof {
                assert(is_meta_child(cs[cur as int]));
            }
            let (open2, k1) = rb_meta(v, cur);
            proof {
                let mid = entries_children(values@);
                let off = k1 as int;
                assert forall|i: int| 0 <= i < mid.len() implies is_meta_child(v@[off + i])
                    == is_meta_child(#[trigger] mid[i]) by {
                    assert(cs[off + i] == mid[i]);
                }
                assert(slots_ok_at(v@, off, mid));
            }
            let (values2, k2) = rebuild_entries(values, v, k1);
            proof {
                assert(is_meta_child(cs[cs.len() - 1]));
                assert(is_meta_child(v@[k2 as int]));
            }
            let (close2, k3) = rb_meta(v, k2);
            let n = ASTType::AttrSet {
                recursive: recursive2,
                open: open2,
                values: values2,
                close: close2,
            };
            proof {
                assert(node_children(n) =~= v@);
            }
            n
        },
        ASTType::Value { .. } => {
            proof {
                assert(is_meta_child(cs[0]));
            }
            let (m, k1) = rb_meta(v, 0);
            let n = ASTType::Value { meta: m };
            proof {
                assert(node_children(n) =~= v@);
            }
            n
        },
        ASTType::Var { .. } => {
            proof {
                assert(is_meta_child(cs[0]));
            }
            let (m, k1) = rb_meta(v, 0);
            let n = ASTType::Var { meta: m };
            proof {
                assert(node_children(n) =~= v@);
            }
            n
        },
        ASTType::Assert { .. } => {
            proof {
                assert(is_meta_child(cs[0]));
                assert(!is_meta_child(cs[1]));
                assert(is_meta_child(cs[2]));
                assert(!is_meta_child(cs[3]));
            }
            let (a2, k1) = rb_meta(v, 0);
            let (c2, k2) = rb_node(v, k1);
            let (s2, k3) = rb_meta(v, k2);
            let (r2, k4) = rb_node(v, k3);
            let n = ASTType::Assert { assert_meta: a2, condition: c2, semi: s2, rest: r2 };
            proof {
                assert(node_children(n) =~= v@);
            }
            n
        },
        ASTType::IfElse { .. } => {
            proof {
                assert(is_meta_child(cs[0]));
                assert(!is_meta_child(cs[1]));
                assert(is_meta_child(cs[2]));
                assert(!is_meta_child(cs[3]));
                assert(is_meta_child(cs[4]));
                assert(!is_meta_child(cs[5]));
            }
            let (i2, k1) = rb_meta(v, 0);
            let (c2, k2) = rb_node(v, k1);
            let (t2, k3) = rb_meta(v, k2);
            let (tb2, k4) = rb_node(v, k3);
            let (e2, k5) = rb_meta(v, k4);
            let (eb2, k6) = rb_node(v, k5);
            let n = ASTType::IfElse {
                if_meta: i2,
                condition: c2,
                taken_meta: t2,
                taken_body: tb2,
                else_meta: e2,
                else_body: eb2,
            };
            proof {
                assert(node_children(n) =~= v@);
            }
            n
        },
        ASTType::Import { .. } => {
            proof {
                assert(is_meta_child(cs[0]));
                assert(!is_meta_child(cs[1]));
            }
            let (m2, k1) = rb_meta(v, 0);
            let (p2, k2) = rb_node(v, k1);
            let n = ASTType::Import { meta: m2, path: p2 };
            proof {
                assert(node_children(n) =~= v@);
            }
            n
        },
        ASTType::Let { values, .. } => {
            proof {
                assert(is_meta_child(cs[0]));
                assert(is_meta_child(cs[1]));
            }
            let (l2, k1) = rb_meta(v, 0);
            let (open2, k2) = rb_meta(v, k1);
            proof {
                let mid = entries_children(values@);
                assert forall|i: int| 0 <= i < mid.len() implies is_meta_child(v@[2 + i])
                    == is_meta_child(#[trigger] mid[i]) by {
                    assert(cs[2 + i] == mid[i]);
                }
                assert(slots_ok_at(v@, 2, mid));
            }
            let (values2, k3) = rebuild_entries(values, v, k2);
            proof {
                assert(is_meta_child(cs[cs.len() - 1]));
                assert(is_meta_child(v@[k3 as int]));
            }
            let (close2, k4) = rb_meta(v, k3);
            let n = ASTType::Let { let_meta: l2, open: open2, values: values2, close: close2 };
            proof {
                assert(node_children(n) =~= v@);
            }
            n
        },
        ASTType::LetIn { values, .. } => {
            proof {
                assert(is_meta_child(cs[0]));
            }
            let (l2, k1) = rb_meta(v, 0);
            proof {
                let mid = entries_children(values@);
                assert forall|i: int| 0 <= i < mid.len() implies is_meta_child(v@[1 + i])
                    == is_meta_child(#[trigger] mid[i]) by {
                    assert(cs[1 + i] == mid[i]);
                }
                assert(slots_ok_at(v@, 1, mid));
            }
            let (values2, k2) = rebuild_entries(values, v, k1);
            proof {
                assert(is_meta_child(cs[cs.len() - 2]));
                assert(is_meta_child(v@[k2 as int]));
                assert(!is_meta_child(cs[cs.len() - 1]));
                assert(!is_meta_child(v@[k2 as int + 1]));
            }
            let (in2, k3) = rb_meta(v, k2);
            let (body2, k4) = rb_node(v, k3);
            let n = ASTType::LetIn { let_meta: l2, values: values2, in_meta: in2, body: body2 };
            proof {
                assert(node_children(n) =~= v@);
            }
            n
        },
        ASTType::With { .. } => {
            proof {
                assert(is_meta_child(cs[0]));
                assert(!is_meta_child(cs[1]));
                assert(is_meta_child(cs[2]));
                assert(!is_meta_child(cs[3]));
            }
            let (w2, k1) = rb_meta(v, 0);
            let (ns2, k2) = rb_node(v, k1);
            let (s2, k3) = rb_meta(v, k2);
            let (b2, k4) = rb_node(v, k3);
            let n = ASTType::With { with: w2, namespace: ns2, semi: s2, body: b2 };
            proof {
                assert(node_children(n) =~= v@);
            }
            n
        },
        ASTType::Apply { .. } => {
            proof {
                assert(!is_meta_child(cs[0]));
                assert(!is_meta_child(cs[1]));
            }
            let (f2, k1) = rb_node(v, 0);
            let (a2, k2) = rb_node(v, k1);
            let n = ASTType::Apply { func: f2, arg: a2 };
            proof {
                assert(node_children(n) =~= v@);
            }
            n
        },
        ASTType::Dynamic { .. } => {
            proof {
                assert(is_meta_child(cs[0]));
                assert(!is_meta_child(cs[1]));
                assert(is_meta_child(cs[2]));
            }
            let (o2, k1) = rb_meta(v, 0);
            let (i2, k2) = rb_node(v, k1);
            let (c2, k3) = rb_meta(v, k2);
            let n = ASTType::Dynamic { open: o2, inner: i2, close: c2 };
            proof {
                assert(node_children(n) =~= v@);
            }
            n
        },
        ASTType::IndexSet { .. } => {
            proof {
                assert(!is_meta_child(cs[0]));
                assert(is_meta_child(cs[1]));
                assert(!is_meta_child(cs[2]));
            }
            let (s2, k1) = rb_node(v, 0);
            let (d2, k2) = rb_meta(v, k1);
            let (a2, k3) = rb_node(v, k2);
            let n = ASTType::IndexSet { indexed: s2, dot: d2, attr: a2 };
            proof {
                assert(node_children(n) =~= v@);
            }
            n
        },
        ASTType::OrDefault { .. } => {
            proof {
                assert(!is_meta_child(cs[0]));
                assert(is_meta_child(cs[1]));
                assert(!is_meta_child(cs[2]));
                assert(is_meta_child(cs[3]));
                assert(!is_meta_child(cs[4]));
            }
            let (s2, k1) = rb_node(v, 0);
            let (d2, k2) = rb_meta(v, k1);
            let (a2, k3) = rb_node(v, k2);
            let (o2, k4) = rb_meta(v, k3);
            let (df2, k5) = rb_node(v, k4);
            let n = ASTType::OrDefault { indexed: s2, dot: d2, attr: a2, or: o2, default: df2 };
            proof {
                assert(node_children(n) =~= v@);
            }
            n
        },
        ASTType::Unary { .. } => {
            proof {
                assert(is_meta_child(cs[0]));
                assert(!is_meta_child(cs[1]));
            }
            let (o2, k1) = rb_meta(v, 0);
            let (v2, k2) = rb_node(v, k1);
            let n = ASTType::Unary { op: o2, value: v2 };
            proof {
                assert(node_children(n) =~= v@);
            }
            n
        },
        ASTType::Operation { .. } => {
            proof {
                assert(!is_meta_child(cs[0]));
                assert(is_meta_child(cs[1]));
                assert(!is_meta_child(cs[2]));
            }
            let (l2, k1) = rb_node(v, 0);
            let (o2, k2) = rb_meta(v, k1);
            let (r2, k3) = rb_node(v, k2);
            let n = ASTType::Operation { left: l2, op: o2, right: r2 };
            proof {
                assert(node_children(n) =~= v@);
            }
            n
        },
        ASTType::Error { .. } => {
            let items2 = copy_children_vec(v);
            let n = ASTType::Error { items: items2 };
            proof {
                assert(node_children(n) =~= v@);
            }
            n
        },
    }
}

/// The registry code of a node's grammar production.
pub open spec fn spec_node_kind(n: ASTType) -> u32 {
    match n {
        ASTType::Interpol { .. } => NODE_INTERPOL,
        ASTType::Lambda { .. } => NODE_LAMBDA,
        ASTType::List { .. } => NODE_LIST,
        ASTType::Parens { .. } => NODE_PARENS,
        ASTType::AttrSet { .. } => NODE_SET,
        ASTType::Value { .. } => NODE_VALUE,
        ASTType::Var { .. } => NODE_VAR,
        ASTType::Assert { .. } => NODE_ASSERT,
        ASTType::IfElse { .. } => NODE_IF_ELSE,
        ASTType::Import { .. } => NODE_IMPORT,
        ASTType::Let { .. } => NODE_LET,
        ASTType::LetIn { .. } => NODE_LET_IN,
        ASTType::With { .. } => NODE_WITH,
        ASTType::Apply { .. } => NODE_APPLY,
        ASTType::Dynamic { .. } => NODE_DYNAMIC,
        ASTType::IndexSet { .. } => NODE_INDEX_SET,
        ASTType::OrDefault { .. } => NODE_OR_DEFAULT,
        ASTType::Unary { .. } => NODE_UNARY,
        ASTType::Operation { .. } => NODE_OPERATION,
        ASTType::Error { .. } => NODE_ERROR,
    }
}

impl ASTType {
    /// The registry code of this node's grammar production, for diagnostics:
    /// always a registered code, so `kind_name` has a name for it.
    pub fn kind(&self) -> (k: u32)
        ensures
            k == spec_node_kind(*self),
            kind_in_range(k),
    {
        match self {
            ASTType::Interpol { .. } => NODE_INTERPOL,
            ASTType::Lambda { .. } => NODE_LAMBDA,
            ASTType::List { .. } => NODE_LIST,
            ASTType::Parens { .. } => NODE_PARENS,
            ASTType::AttrSet { .. } => NODE_SET,
            ASTType::Value { .. } => NODE_VALUE,
            ASTType::Var { .. } => NODE_VAR,
            ASTType::Assert { .. } => NODE_ASSERT,
            ASTType::IfElse { .. } => NODE_IF_ELSE,
            ASTType::Import { .. } => NODE_IMPORT,
            ASTType::Let { .. } => NODE_LET,
            ASTType::LetIn { .. } => NODE_LET_IN,
            ASTType::With { .. } => NODE_WITH,
            ASTType::Apply { .. } => NODE_APPLY,
            ASTType::Dynamic { .. } => NODE_DYNAMIC,
            ASTType::IndexSet { .. } => NODE_INDEX_SET,
            ASTType::OrDefault { .. } => NODE_OR_DEFAULT,
            ASTType::Unary { .. } => NODE_UNARY,
            ASTType::Operation { .. } => NODE_OPERATION,
            ASTType::Error { .. } => NODE_ERROR,
        }
    }
}

impl ASTType {
    /// The mutating counterpart of the child enumeration: replace the child
    /// at `index` with `new`.  It succeeds exactly when the index is in range
    /// and `new` is the same sort of child (terminal for terminal, node for
    /// node) as the one enumerated there, in which case the node's child sequence
    /// is the old one with position `index` updated — so an index-based edit
    /// lands exactly on the child the read-only enumeration reports.
    pub fn replace_child(&mut self, index: usize, new: Child) -> (ok: bool)
        ensures
            ok == (index < node_children(*old(self)).len() && is_meta_child(new) == is_meta_child(
                node_children(*old(self))[index as int],
            )),
            ok ==> node_children(*final(self)) == node_children(*old(self)).update(
                index as int,
                new,
            ),
            !ok ==> *final(self) == *old(self),
    {
        let mut v = node_children_exec(self);
        if index >= v.len() {
            return false;
        }
        let compatible = match (v[index], new) {
            (Child::Meta(_), Child::Meta(_)) => true,
            (Child::Node(_), Child::Node(_)) => true,
            _ => false,
        };
        if !compatible {
            return false;
        }
        *vstd::std_specs::vec::vec_index_mut(&mut v, index) = new;
        proof {
            assert(v@ =~= node_children(*self).update(index as int, new));
            assert forall|i: int| 0 <= i < node_children(*self).len() implies is_meta_child(v@[i])
                == is_meta_child(#[trigger] node_children(*self)[i]) by {
            }
            assert(slots_ok_at(v@, 0, node_children(*self)));
        }
        let n2 = rebuild_node(self, &v);
        *self = n2;
        true
    }
}

/// The law the two enumeration views obey: an index-based edit, as
/// `replace_child` performs it, keeps the count and the order of the
/// children that `children` and `child` report, and touches no position but
/// the one named.  Both views are contracted against the one sequence
/// `node_children`, so they cannot disagree.
pub proof fn lemma_enumeration_consistent(n: ASTType, m: ASTType, i: int, c: Child)
    requires
        0 <= i < node_children(n).len(),
        node_children(m) == node_children(n).update(i, c),
    ensures
        node_children(m).len() == node_children(n).len(),
        node_children(m)[i] == c,
        forall|j: int|
            0 <= j < node_children(n).len() && j != i ==> node_children(m)[j] == node_children(
                n,
            )[j],
{
}

/// One diagnostic: a message and the terminal (by its table index) at which
/// the problem was found.
#[derive(PartialEq, Eq, Debug)]
pub struct Diagnostic {
    pub message: String,
    /// Index into the token table of the tree, locating the source range.
    pub at: MetaId,
}

/// A parsed tree: the token table, the arena of nodes, the root node, and
/// the diagnostics gathered while parsing.  The table holds every terminal
/// of the source in order, so `text` is exactly the input that was parsed.
#[derive(PartialEq, Eq, Debug)]
pub struct AST {
    /// Every terminal of the source, in source order, closed by one entry of
    /// kind `TOKEN_EOF` holding the trailing trivia.  Entries of kind
    /// `TOKEN_MISSING` (inserted where a token was expected but absent) have
    /// empty text and may stand after the end-of-input entry.
    pub metas: Vec<Meta>,
    /// The arena owning all nodes; `NodeId` values index into it.
    pub arena: Vec<ASTType>,
    /// The root node.
    pub root: NodeId,
    /// Empty exactly when the input was well formed.
    pub errors: Vec<Diagnostic>,
}

impl AST {
    /// The source text this tree stands for.
    pub open spec fn text(&self) -> Seq<char> {
        metas_text(self.metas@)
    }

    /// The tree handle is complete: the root resolves in the arena.
    pub open spec fn wf(&self) -> bool {
        self.root < self.arena@.len()
    }

    /// Resolve a node reference through the arena that owns it.
    pub fn node(&self, id: NodeId) -> (r: Option<&ASTType>)
        ensures
            id < self.arena@.len() ==> r == Some(&self.arena@[id as int]),
            id >= self.arena@.len() ==> r is None,
    {
        if id < self.arena.len() {
            Some(&self.arena[id])
        } else {
            None
        }
    }

    /// Resolve a terminal reference through the token table.
    pub fn meta(&self, id: MetaId) -> (r: Option<&Meta>)
        ensures
            id < self.metas@.len() ==> r == Some(&self.metas@[id as int]),
            id >= self.metas@.len() ==> r is None,
    {
        if id < self.metas.len() {
            Some(&self.metas[id])
        } else {
            None
        }
    }

    /// The root node, or the first diagnostic when parsing saw any error.
    pub fn as_result(&self) -> (r: Result<NodeId, &Diagnostic>)
        ensures
            r is Ok <==> self.errors@.len() == 0,
            r is Ok ==> r == Ok::<NodeId, &Diagnostic>(self.root),
            r matches Err(d) ==> *d == self.errors@[0],
    {
        if self.errors.len() == 0 {
            Ok(self.root)
        } else {
            Err(&self.errors[0])
        }
    }

    /// Re-serialize the tree: exactly the source text it was parsed from,
    /// byte for byte, comments and whitespace kept.
    pub fn serialize(&self) -> (r: String)
        ensures
            r@ == self.text(),
    {
        let mut r = String::new();
        let mut i: usize = 0;
        while i < self.metas.len()
            invariant
                i <= self.metas@.len(),
                r@ == metas_text(self.metas@.take(i as int)),
            decreases self.metas@.len() - i,
        {
            let m = &self.metas[i];
            let ghost r0 = r@;
            let mut j: usize = 0;
            while j < m.trivia.len()
                invariant
                    j <= m.trivia@.len(),
                    r@ == r0 + trivia_text(m.trivia@.take(j as int)),
                decreases m.trivia@.len() - j,
            {
                r.append(m.trivia[j].as_str());
                proof {
                    lemma_trivia_text_take_step(m.trivia@, j as int);
                }
                j += 1;
            }
            proof {
                assert(m.trivia@.take(m.trivia@.len() as int) =~= m.trivia@);
            }
            r.append(m.token.as_str());
            proof {
                lemma_metas_text_take_step(self.metas@, i as int);
                assert(r@ =~= metas_text(self.metas@.take(i + 1 as int)));
            }
            i += 1;
        }
        proof {
            assert(self.metas@.take(self.metas@.len() as int) =~= self.metas@);
        }
        r
    }
}

} // verus!
