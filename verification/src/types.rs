//! The typed casting layer: named wrapper views over generic node
//! references.  Each wrapper's `cast` inspects the node's tag and yields the
//! view when it matches and nothing when it does not — never a fault.  The
//! accessors hand out plain values and opaque references; navigation always
//! goes back through the owning tree.

use vstd::prelude::*;

use crate::kinds::{
    TOKEN_ADD, TOKEN_AND, TOKEN_CONCAT, TOKEN_DIV, TOKEN_EQUAL, TOKEN_IMPLICATION, TOKEN_LESS,
    TOKEN_LESS_OR_EQ, TOKEN_MORE, TOKEN_MORE_OR_EQ, TOKEN_MUL, TOKEN_NOT_EQUAL, TOKEN_OR,
    TOKEN_QUESTION, TOKEN_SUB, TOKEN_UPDATE,
};
use crate::tree::{AST, ASTType, InterpolPart, LambdaArg, MetaId, NodeId, SegName, SetEntry};
use crate::value::{scalar_of, NixValue, ValueError};

verus! {

/// The node with the given reference, when the arena resolves it.
pub open spec fn spec_node(ast: &AST, id: NodeId) -> Option<ASTType> {
    if id < ast.arena@.len() {
        Some(ast.arena@[id as int])
    } else {
        None
    }
}

// ---------------------------------------------------------------------------
// Let-in.
// ---------------------------------------------------------------------------

/// A view of a `let ... in body` node.
pub struct LetIn {
    pub id: NodeId,
    pub body: NodeId,
}

impl LetIn {
    /// The view when the node is a let-in, and nothing otherwise.
    pub fn cast(ast: &AST, id: NodeId) -> (r: Option<LetIn>)
        ensures
            r matches Some(l) ==> l.id == id && (spec_node(ast, id) matches Some(n) && n matches
                ASTType::LetIn { body, .. } && l.body == body),
            r is None <==> !(spec_node(ast, id) matches Some(n) && n is LetIn),
    {
        match ast.node(id) {
            Some(ASTType::LetIn { body, .. }) => Some(LetIn { id, body: *body }),
            _ => None,
        }
    }

    /// The expression the bindings scope over.
    pub fn body(&self) -> (r: NodeId)
        ensures
            r == self.body,
    {
        self.body
    }
}

// ---------------------------------------------------------------------------
// Attribute sets (and the entries of let bodies).
// ---------------------------------------------------------------------------

/// A view of one assignment entry: the first path segment when it is a plain
/// identifier, and the value.
#[derive(Clone, Copy, PartialEq, Eq, Structural, Debug)]
pub struct AssignView {
    pub key: Option<MetaId>,
    pub value: NodeId,
}

/// The assignment entries of a body, in order, each reduced to its view.
pub open spec fn assign_views(es: Seq<SetEntry>) -> Seq<AssignView>
    decreases es.len(),
{
    if es.len() == 0 {
        Seq::empty()
    } else {
        assign_views(es.drop_last()) + (match es.last() {
            SetEntry::Assign { path, value, .. } => seq![
                AssignView {
                    key: (if path@.len() > 0 && path@[0].name is Ident {
                        Some(path@[0].name->Ident_0)
                    } else {
                        None
                    }),
                    value,
                },
            ],
            _ => Seq::empty(),
        })
    }
}

/// A view of one inherit entry: the parenthesized source expression when one
/// is present, and the inherited identifiers.
pub struct InheritView {
    pub from_inner: Option<NodeId>,
    pub idents: Vec<MetaId>,
}

/// The inherit entries of a body: the source expressions, in order.
pub open spec fn inherit_froms(es: Seq<SetEntry>) -> Seq<Option<NodeId>>
    decreases es.len(),
{
    if es.len() == 0 {
        Seq::empty()
    } else {
        inherit_froms(es.drop_last()) + (match es.last() {
            SetEntry::Inherit { from, .. } => seq![
                (match from {
                    Some((_, inner, _)) => Some(inner),
                    None => None,
                }),
            ],
            _ => Seq::empty(),
        })
    }
}

/// The inherit entries of a body: the identifier lists, in order.
pub open spec fn inherit_ident_seqs(es: Seq<SetEntry>) -> Seq<Seq<MetaId>>
    decreases es.len(),
{
    if es.len() == 0 {
        Seq::empty()
    } else {
        inherit_ident_seqs(es.drop_last()) + (match es.last() {
            SetEntry::Inherit { idents, .. } => seq![idents@],
            _ => Seq::empty(),
        })
    }
}

/// A view of an attribute set node (or of a legacy braced let).
pub struct AttrSet {
    pub id: NodeId,
    pub recursive: bool,
}

/// The entries of the node, when it carries any.
pub open spec fn spec_entries(ast: &AST, id: NodeId) -> Option<Seq<SetEntry>> {
    match spec_node(ast, id) {
        Some(ASTType::AttrSet { values, .. }) => Some(values@),
        Some(ASTType::Let { values, .. }) => Some(values@),
        Some(ASTType::LetIn { values, .. }) => Some(values@),
        _ => None,
    }
}

impl AttrSet {
    /// The view when the node is an attribute set, and nothing otherwise.
    pub fn cast(ast: &AST, id: NodeId) -> (r: Option<AttrSet>)
        ensures
            r matches Some(s) ==> s.id == id && (spec_node(ast, id) matches Some(n) && n matches
                ASTType::AttrSet { recursive, .. } && s.recursive == recursive is Some),
            r is None <==> !(spec_node(ast, id) matches Some(n) && n is AttrSet),
    {
        match ast.node(id) {
            Some(ASTType::AttrSet { recursive, .. }) => Some(
                AttrSet { id, recursive: recursive.is_some() },
            ),
            _ => None,
        }
    }

    /// The assignment entries of the set, in source order.
    pub fn entries(&self, ast: &AST) -> (r: Vec<AssignView>)
        ensures
            spec_entries(ast, self.id) matches Some(es) ==> r@ == assign_views(es),
            spec_entries(ast, self.id) is None ==> r@.len() == 0,
    {
        entries_of(ast, self.id)
    }

    /// The inherit entries of the set, in source order.
    pub fn inherits(&self, ast: &AST) -> (r: Vec<InheritView>)
        ensures
            spec_entries(ast, self.id) matches Some(es) ==> {
                &&& r@.len() == inherit_froms(es).len()
                &&& r@.len() == inherit_ident_seqs(es).len()
                &&& forall|i: int|
                    0 <= i < r@.len() ==> (#[trigger] r@[i].from_inner) == inherit_froms(es)[i]
                        && r@[i].idents@ == inherit_ident_seqs(es)[i]
            },
            spec_entries(ast, self.id) is None ==> r@.len() == 0,
    {
        inherits_of(ast, self.id)
    }
}

/// The assignment entries of a set or let body, in source order.
pub fn entries_of(ast: &AST, id: NodeId) -> (r: Vec<AssignView>)
    ensures
        spec_entries(ast, id) matches Some(es) ==> r@ == assign_views(es),
        spec_entries(ast, id) is None ==> r@.len() == 0,
{
    let mut out: Vec<AssignView> = Vec::new();
    let values: &Vec<SetEntry> = match ast.node(id) {
        Some(ASTType::AttrSet { values, .. }) => values,
        Some(ASTType::Let { values, .. }) => values,
        Some(ASTType::LetIn { values, .. }) => values,
        _ => {
            return out;
        },
    };
    let mut j: usize = 0;
    while j < values.len()
        invariant
            j <= values.len(),
            out@ == assign_views(values@.take(j as int)),
        decreases values.len() - j,
    {
        match &values[j] {
            SetEntry::Assign { path, value, .. } => {
                let key: Option<MetaId> = if path.len() > 0 {
                    match &path[0].name {
                        SegName::Ident(m) => Some(*m),
                        SegName::Dynamic(_) => None,
                    }
                } else {
                    None
                };
                out.push(AssignView { key, value: *value });
            },
            _ => {},
        }
        proof {
            assert(values@.take(j + 1 as int).drop_last() =~= values@.take(j as int));
            assert(values@.take(j + 1 as int).last() == values@[j as int]);
            assert(out@ =~= assign_views(values@.take(j + 1 as int)));
        }
        j += 1;
    }
    assert(values@.take(values@.len() as int) =~= values@);
    out
}

/// The inherit entries of a set or let body, in source order.
pub fn inherits_of(ast: &AST, id: NodeId) -> (r: Vec<InheritView>)
    ensures
        spec_entries(ast, id) matches Some(es) ==> {
            &&& r@.len() == inherit_froms(es).len()
            &&& r@.len() == inherit_ident_seqs(es).len()
            &&& forall|i: int|
                0 <= i < r@.len() ==> (#[trigger] r@[i].from_inner) == inherit_froms(es)[i]
                    && r@[i].idents@ == inherit_ident_seqs(es)[i]
        },
        spec_entries(ast, id) is None ==> r@.len() == 0,
{
    let mut out: Vec<InheritView> = Vec::new();
    let values: &Vec<SetEntry> = match ast.node(id) {
        Some(ASTType::AttrSet { values, .. }) => values,
        Some(ASTType::Let { values, .. }) => values,
        Some(ASTType::LetIn { values, .. }) => values,
        _ => {
            return out;
        },
    };
    let mut j: usize = 0;
    while j < values.len()
        invariant
            j <= values.len(),
            out@.len() == inherit_froms(values@.take(j as int)).len(),
            out@.len() == inherit_ident_seqs(values@.take(j as int)).len(),
            forall|i: int|
                0 <= i < out@.len() ==> (#[trigger] out@[i].from_inner) == inherit_froms(
                    values@.take(j as int),
                )[i] && out@[i].idents@ == inherit_ident_seqs(values@.take(j as int))[i],
        decreases values.len() - j,
    {
        let ghost pre = values@.take(j as int);
        proof {
            assert(values@.take(j + 1 as int).drop_last() =~= pre);
            assert(values@.take(j + 1 as int).last() == values@[j as int]);
        }
        match &values[j] {
            SetEntry::Inherit { from, idents, .. } => {
                let from_inner: Option<NodeId> = match from {
                    Some(t) => Some(t.1),
                    None => None,
                };
                let mut ids: Vec<MetaId> = Vec::new();
                let mut q: usize = 0;
                while q < idents.len()
                    invariant
                        q <= idents.len(),
                        ids@ == idents@.take(q as int),
                    decreases idents.len() - q,
                {
                    ids.push(idents[q]);
                    assert(ids@ =~= idents@.take(q + 1 as int));
                    q += 1;
                }
                assert(idents@.take(idents@.len() as int) =~= idents@);
                out.push(InheritView { from_inner, idents: ids });
            },
            _ => {},
        }
        j += 1;
    }
    assert(values@.take(values@.len() as int) =~= values@);
    out
}

// ---------------------------------------------------------------------------
// Identifiers and literal values.
// ---------------------------------------------------------------------------

/// A view of a variable-reference node.
pub struct Ident {
    pub id: NodeId,
    pub meta: MetaId,
}

impl Ident {
    /// The view when the node is a variable reference, nothing otherwise.
    pub fn cast(ast: &AST, id: NodeId) -> (r: Option<Ident>)
        ensures
            r matches Some(v) ==> v.id == id && (spec_node(ast, id) matches Some(n) && n matches
                ASTType::Var { meta } && v.meta == meta),
            r is None <==> !(spec_node(ast, id) matches Some(n) && n is Var),
    {
        match ast.node(id) {
            Some(ASTType::Var { meta }) => Some(Ident { id, meta: *meta }),
            _ => None,
        }
    }

    /// The identifier's exact spelling, or empty when the reference does not
    /// resolve.
    pub fn name(&self, ast: &AST) -> (r: String)
        ensures
            self.meta < ast.metas@.len() ==> r@ == ast.metas@[self.meta as int].token@,
            self.meta >= ast.metas@.len() ==> r@ == Seq::<char>::empty(),
    {
        match ast.meta(self.meta) {
            Some(m) => m.token.clone(),
            None => String::new(),
        }
    }
}

/// A view of a literal-value node.
pub struct Value {
    pub id: NodeId,
    pub meta: MetaId,
}

impl Value {
    /// The view when the node is a literal value, nothing otherwise.
    pub fn cast(ast: &AST, id: NodeId) -> (r: Option<Value>)
        ensures
            r matches Some(v) ==> v.id == id && (spec_node(ast, id) matches Some(n) && n matches
                ASTType::Value { meta } && v.meta == meta),
            r is None <==> !(spec_node(ast, id) matches Some(n) && n is Value),
    {
        match ast.node(id) {
            Some(ASTType::Value { meta }) => Some(Value { id, meta: *meta }),
            _ => None,
        }
    }

    /// Convert the literal into a structured scalar, as the value layer
    /// says; a failure is local to this call.
    pub fn to_value(&self, ast: &AST) -> (r: Result<NixValue, ValueError>)
        ensures
            self.meta < ast.metas@.len() ==> crate::value::scalar_post(
                ast.metas@[self.meta as int],
                r,
            ),
            self.meta >= ast.metas@.len() ==> r == Err::<NixValue, ValueError>(
                ValueError::NotAScalar,
            ),
    {
        match ast.meta(self.meta) {
            Some(m) => scalar_of(m),
            None => Err(ValueError::NotAScalar),
        }
    }
}

// ---------------------------------------------------------------------------
// Operations.
// ---------------------------------------------------------------------------

/// The kind of a binary operation.
#[derive(Clone, Copy, PartialEq, Eq, Structural, Debug)]
pub enum OpKind {
    Add,
    Sub,
    Mul,
    Div,
    Concat,
    Update,
    Less,
    LessOrEq,
    More,
    MoreOrEq,
    Equal,
    NotEqual,
    And,
    Or,
    Implication,
    IsSet,
}

/// The operation kind an operator token code denotes.
pub open spec fn op_of_kind(k: u32) -> Option<OpKind> {
    if k == TOKEN_ADD {
        Some(OpKind::Add)
    } else if k == TOKEN_SUB {
        Some(OpKind::Sub)
    } else if k == TOKEN_MUL {
        Some(OpKind::Mul)
    } else if k == TOKEN_DIV {
        Some(OpKind::Div)
    } else if k == TOKEN_CONCAT {
        Some(OpKind::Concat)
    } else if k == TOKEN_UPDATE {
        Some(OpKind::Update)
    } else if k == TOKEN_LESS {
        Some(OpKind::Less)
    } else if k == TOKEN_LESS_OR_EQ {
        Some(OpKind::LessOrEq)
    } else if k == TOKEN_MORE {
        Some(OpKind::More)
    } else if k == TOKEN_MORE_OR_EQ {
        Some(OpKind::MoreOrEq)
    } else if k == TOKEN_EQUAL {
        Some(OpKind::Equal)
    } else if k == TOKEN_NOT_EQUAL {
        Some(OpKind::NotEqual)
    } else if k == TOKEN_AND {
        Some(OpKind::And)
    } else if k == TOKEN_OR {
        Some(OpKind::Or)
    } else if k == TOKEN_IMPLICATION {
        Some(OpKind::Implication)
    } else if k == TOKEN_QUESTION {
        Some(OpKind::IsSet)
    } else {
        None
    }
}

/// A view of a binary-operation node.
pub struct Operation {
    pub id: NodeId,
    pub left: NodeId,
    pub op_meta: MetaId,
    pub right: NodeId,
}

impl Operation {
    /// The view when the node is a binary operation, nothing otherwise.
    pub fn cast(ast: &AST, id: NodeId) -> (r: Option<Operation>)
        ensures
            r matches Some(o) ==> o.id == id && (spec_node(ast, id) matches Some(n) && n matches
                ASTType::Operation { left, op, right } && o.left == left && o.op_meta == op
                && o.right == right),
            r is None <==> !(spec_node(ast, id) matches Some(n) && n is Operation),
    {
        match ast.node(id) {
            Some(ASTType::Operation { left, op, right }) => Some(
                Operation { id, left: *left, op_meta: *op, right: *right },
            ),
            _ => None,
        }
    }

    /// The operator's kind, by its token.
    pub fn operator(&self, ast: &AST) -> (r: Option<OpKind>)
        ensures
            self.op_meta < ast.metas@.len() ==> r == op_of_kind(
                ast.metas@[self.op_meta as int].kind,
            ),
            self.op_meta >= ast.metas@.len() ==> r is None,
    {
        let m = match ast.meta(self.op_meta) {
            Some(m) => m,
            None => {
                return None;
            },
        };
        let k = m.kind;
        if k == TOKEN_ADD {
            Some(OpKind::Add)
        } else if k == TOKEN_SUB {
            Some(OpKind::Sub)
        } else if k == TOKEN_MUL {
            Some(OpKind::Mul)
        } else if k == TOKEN_DIV {
            Some(OpKind::Div)
        } else if k == TOKEN_CONCAT {
            Some(OpKind::Concat)
        } else if k == TOKEN_UPDATE {
            Some(OpKind::Update)
        } else if k == TOKEN_LESS {
            Some(OpKind::Less)
        } else if k == TOKEN_LESS_OR_EQ {
            Some(OpKind::LessOrEq)
        } else if k == TOKEN_MORE {
            Some(OpKind::More)
        } else if k == TOKEN_MORE_OR_EQ {
            Some(OpKind::MoreOrEq)
        } else if k == TOKEN_EQUAL {
            Some(OpKind::Equal)
        } else if k == TOKEN_NOT_EQUAL {
            Some(OpKind::NotEqual)
        } else if k == TOKEN_AND {
            Some(OpKind::And)
        } else if k == TOKEN_OR {
            Some(OpKind::Or)
        } else if k == TOKEN_IMPLICATION {
            Some(OpKind::Implication)
        } else if k == TOKEN_QUESTION {
            Some(OpKind::IsSet)
        } else {
            None
        }
    }

    /// The left operand.
    pub fn value1(&self) -> (r: NodeId)
        ensures
            r == self.left,
    {
        self.left
    }

    /// The right operand.
    pub fn value2(&self) -> (r: NodeId)
        ensures
            r == self.right,
    {
        self.right
    }
}

// ---------------------------------------------------------------------------
// Interpolated strings.
// ---------------------------------------------------------------------------

/// One part of an interpolation, as the casting layer hands it out: the
/// processed text of a literal boundary, or an embedded expression.
pub enum InterpolPartView {
    Literal(Vec<char>),
    Ast(NodeId),
}

/// The handed-out part stands for the stored one.
pub open spec fn part_view_matches(a: InterpolPartView, b: InterpolPart) -> bool {
    match (a, b) {
        (InterpolPartView::Literal(c), InterpolPart::Literal { content, .. }) => c@ == content@,
        (InterpolPartView::Ast(x), InterpolPart::Ast { node }) => x == node,
        _ => false,
    }
}

/// A view of an interpolated-string node.
pub struct Interpol {
    pub id: NodeId,
    pub multiline: bool,
}

impl Interpol {
    /// The view when the node is an interpolated string, nothing otherwise.
    pub fn cast(ast: &AST, id: NodeId) -> (r: Option<Interpol>)
        ensures
            r matches Some(v) ==> v.id == id && (spec_node(ast, id) matches Some(n) && n matches
                ASTType::Interpol { multiline, .. } && v.multiline == multiline),
            r is None <==> !(spec_node(ast, id) matches Some(n) && n is Interpol),
    {
        match ast.node(id) {
            Some(ASTType::Interpol { multiline, .. }) => Some(Interpol { id, multiline: *multiline }),
            _ => None,
        }
    }

    /// The parts, in left-to-right source order: literal boundaries with
    /// their processed text, alternating with embedded expressions.
    pub fn parts(&self, ast: &AST) -> (r: Vec<InterpolPartView>)
        ensures
            (spec_node(ast, self.id) matches Some(n) && n matches ASTType::Interpol { parts, .. })
                ==> {
                let stored = (spec_node(ast, self.id)->Some_0)->Interpol_parts;
                &&& r@.len() == stored@.len()
                &&& forall|i: int|
                    0 <= i < r@.len() ==> part_view_matches(#[trigger] r@[i], stored@[i])
            },
    {
        let mut out: Vec<InterpolPartView> = Vec::new();
        let parts: &Vec<InterpolPart> = match ast.node(self.id) {
            Some(ASTType::Interpol { parts, .. }) => parts,
            _ => {
                return out;
            },
        };
        let mut j: usize = 0;
        while j < parts.len()
            invariant
                j <= parts.len(),
                out@.len() == j,
                forall|i: int|
                    0 <= i < j ==> part_view_matches(#[trigger] out@[i], parts@[i]),
            decreases parts.len() - j,
        {
            match &parts[j] {
                InterpolPart::Literal { content, .. } => {
                    let mut c: Vec<char> = Vec::new();
                    let mut q: usize = 0;
                    while q < content.len()
                        invariant
                            q <= content.len(),
                            c@ == content@.take(q as int),
                        decreases content.len() - q,
                    {
                        c.push(content[q]);
                        assert(c@ =~= content@.take(q + 1 as int));
                        q += 1;
                    }
                    assert(content@.take(content@.len() as int) =~= content@);
                    out.push(InterpolPartView::Literal(c));
                },
                InterpolPart::Ast { node } => {
                    out.push(InterpolPartView::Ast(*node));
                },
            }
            j += 1;
        }
        out
    }
}

// ---------------------------------------------------------------------------
// Lambdas and patterns.
// ---------------------------------------------------------------------------

/// A view of a lambda node: its body, and either the plain argument name or
/// the pattern's pieces.
pub struct Lambda {
    pub id: NodeId,
    pub body: NodeId,
    /// The argument identifier of the simple form.
    pub arg_ident: Option<MetaId>,
    /// The pattern arguments: each name with its optional default value.
    pub pat_entries: Vec<(MetaId, Option<NodeId>)>,
    /// Whether the pattern carries the open (ellipsis) marker.
    pub ellipsis: bool,
    /// The binding alias identifier, when present.
    pub bind: Option<MetaId>,
}

/// The pattern entries reduced to name and optional default.
pub open spec fn pat_views(es: Seq<crate::tree::PatEntry>) -> Seq<(MetaId, Option<NodeId>)>
    decreases es.len(),
{
    if es.len() == 0 {
        Seq::empty()
    } else {
        pat_views(es.drop_last()) + seq![
            (es.last().name, (match es.last().default {
                Some((_, d)) => Some(d),
                None => None,
            })),
        ]
    }
}

impl Lambda {
    /// The view when the node is a lambda, nothing otherwise.
    pub fn cast(ast: &AST, id: NodeId) -> (r: Option<Lambda>)
        ensures
            r matches Some(l) ==> l.id == id && (spec_node(ast, id) matches Some(n) && n matches
                ASTType::Lambda { arg, body, .. } && l.body == body && (match arg {
                LambdaArg::Ident { meta } => l.arg_ident == Some(meta) && l.pat_entries@.len()
                    == 0 && !l.ellipsis && l.bind is None,
                LambdaArg::Pattern { entries, ellipsis, bind, .. } => l.arg_ident is None
                    && l.pat_entries@ == pat_views(entries@) && l.ellipsis == ellipsis is Some
                    && l.bind == (match bind {
                    Some(b) => Some(b.ident),
                    None => None,
                }),
            })),
            r is None <==> !(spec_node(ast, id) matches Some(n) && n is Lambda),
    {
        let (arg, body): (&LambdaArg, NodeId) = match ast.node(id) {
            Some(ASTType::Lambda { arg, body, .. }) => (arg, *body),
            _ => {
                return None;
            },
        };
        match arg {
            LambdaArg::Ident { meta } => Some(
                Lambda {
                    id,
                    body,
                    arg_ident: Some(*meta),
                    pat_entries: Vec::new(),
                    ellipsis: false,
                    bind: None,
                },
            ),
            LambdaArg::Pattern { entries, ellipsis, bind, .. } => {
                let mut pe: Vec<(MetaId, Option<NodeId>)> = Vec::new();
                let mut j: usize = 0;
                while j < entries.len()
                    invariant
                        j <= entries.len(),
                        pe@ == pat_views(entries@.take(j as int)),
                    decreases entries.len() - j,
                {
                    let e = &entries[j];
                    let d: Option<NodeId> = match &e.default {
                        Some(t) => Some(t.1),
                        None => None,
                    };
                    pe.push((e.name, d));
                    proof {
                        assert(entries@.take(j + 1 as int).drop_last() =~= entries@.take(
                            j as int,
                        ));
                        assert(entries@.take(j + 1 as int).last() == entries@[j as int]);
                        assert(pe@ =~= pat_views(entries@.take(j + 1 as int)));
                    }
                    j += 1;
                }
                assert(entries@.take(entries@.len() as int) =~= entries@);
                let b: Option<MetaId> = match bind {
                    Some(pb) => Some(pb.ident),
                    None => None,
                };
                Some(
                    Lambda {
                        id,
                        body,
                        arg_ident: None,
                        pat_entries: pe,
                        ellipsis: ellipsis.is_some(),
                        bind: b,
                    },
                )
            },
        }
    }
}

} // verus!
