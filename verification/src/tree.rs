use vstd::prelude::*;

use crate::span::Span;

verus! {

/// The keyword a variable declaration was written with.
#[derive(Clone, Copy, PartialEq, Eq, Structural, Debug)]
pub enum DeclKeyword {
    Var,
    Let,
    Const,
}

/// The discriminant of a syntax node, as far as the engine reads it.
///
/// The engine only ever inspects a declaration's keyword and whether a
/// subtree is pure type-system syntax; every other node kind is carried as
/// an opaque tag, so that new kinds added by the parser fall through to the
/// traversal's default behaviour instead of breaking existing rules.
#[derive(Clone, Copy, PartialEq, Eq, Structural, Debug)]
pub enum NodeKind {
    /// A variable declaration written with the given keyword.
    VarDecl(DeclKeyword),
    /// The root of a subtree that is pure type-system syntax (a type alias,
    /// an interface body, a type annotation).
    TypeSyntax,
    /// Any other node kind, identified only by an opaque tag.
    Other(u32),
}

/// One node of the parsed syntax tree: a kind, the span it covers in the
/// source, and its children in source order. The engine never mutates a
/// node; it only reads the discriminant and descends into the children.
pub struct Node {
    pub kind: NodeKind,
    pub span: Span,
    pub children: Vec<Node>,
}

/// A tree as the external parser hands it over: spans are consistent with
/// the source text. Every node's span is an ordered range, children lie
/// inside their parent's span, and siblings appear in source order without
/// overlapping.
pub open spec fn well_formed(n: Node) -> bool
    decreases n,
{
    &&& n.span.start <= n.span.end
    &&& forall|i: int|
        0 <= i < n.children@.len() ==> well_formed(#[trigger] n.children@[i])
    &&& forall|i: int|
        0 <= i < n.children@.len() ==> n.span.start <= (#[trigger] n.children@[i]).span.start
            && n.children@[i].span.end <= n.span.end
    &&& forall|i: int|
        0 <= i && i + 1 < n.children@.len() ==> (#[trigger] n.children@[i]).span.end
            <= n.children@[i + 1].span.start
}

/// The dual program representation: a closed two-variant union wrapping the
/// root of the parsed tree, one variant per top-level syntactic unit.
pub enum Program {
    Module(Node),
    Script(Node),
}

impl Program {
    /// The tree root, whichever top-level unit the program was parsed as.
    /// The variant selects the traversal entry point; the node-kind
    /// dispatch below the root is shared.
    pub open spec fn root(self) -> Node {
        match self {
            Program::Module(n) => n,
            Program::Script(n) => n,
        }
    }
}

} // verus!
