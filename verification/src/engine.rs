use vstd::prelude::*;

use crate::diag::Context;
use crate::diag::DiagView;
use crate::span::Span;
use crate::tree::DeclKeyword;
use crate::tree::Node;
use crate::tree::NodeKind;
use crate::tree::Program;

verus! {

/// What a rule plugs into the traversal engine: a handler for the one node
/// kind the engine dispatches specially, variable declarations. Every other
/// kind falls through to the engine's default of "descend, report nothing".
///
/// `effect` is the handler's specification: the diagnostics one visit
/// appends for a declaration with the given span and keyword. Because the
/// effect is a function of the visited node alone, any traversal of a tree
/// by the same handler appends the same diagnostic sequence.
pub trait NodeHandler {
    /// The diagnostics one visit of a variable declaration appends.
    spec fn effect(span: Span, kw: DeclKeyword) -> Seq<DiagView>;

    /// Called by the engine at every variable-declaration node.
    fn on_var_decl(&self, ctx: &mut Context, span: Span, kw: DeclKeyword)
        ensures
            final(ctx)@ == old(ctx)@ + Self::effect(span, kw),
    ;
}

/// The diagnostics a depth-first, pre-order traversal of the subtree at `n`
/// appends for handler `H`. With `skip_types` set (the engine's default
/// policy) subtrees of pure type-system syntax are pruned before descent.
pub open spec fn node_diags<H: NodeHandler>(n: Node, skip_types: bool) -> Seq<DiagView>
    decreases n,
{
    match n.kind {
        NodeKind::VarDecl(kw) => H::effect(n.span, kw) + children_diags::<H>(
            n.children@,
            skip_types,
        ),
        NodeKind::TypeSyntax => if skip_types {
            Seq::empty()
        } else {
            children_diags::<H>(n.children@, skip_types)
        },
        NodeKind::Other(_) => children_diags::<H>(n.children@, skip_types),
    }
}

/// The diagnostics appended while the children in `s` are traversed left to
/// right.
pub open spec fn children_diags<H: NodeHandler>(s: Seq<Node>, skip_types: bool) -> Seq<DiagView>
    decreases s,
{
    if s.len() == 0 {
        Seq::empty()
    } else {
        node_diags::<H>(s[0], skip_types) + children_diags::<H>(
            s.subrange(1, s.len() as int),
            skip_types,
        )
    }
}

/// The diagnostics one traversal of the whole program appends: the variant
/// selects the entry point, the walk below the root is shared.
pub open spec fn program_diags<H: NodeHandler>(p: Program, skip_types: bool) -> Seq<DiagView> {
    node_diags::<H>(p.root(), skip_types)
}

/// Traversing children listed in two parts appends first the diagnostics of
/// the first part, then those of the second.
pub proof fn lemma_children_diags_concat<H: NodeHandler>(a: Seq<Node>, b: Seq<Node>, skip_types: bool)
    ensures
        children_diags::<H>(a + b, skip_types) == children_diags::<H>(a, skip_types)
            + children_diags::<H>(b, skip_types),
    decreases a.len(),
{
    if a.len() == 0 {
        assert(a + b =~= b);
        assert(children_diags::<H>(a, skip_types) + children_diags::<H>(b, skip_types)
            =~= children_diags::<H>(b, skip_types));
    } else {
        let rest = a.subrange(1, a.len() as int);
        assert((a + b)[0] == a[0]);
        assert((a + b).subrange(1, (a + b).len() as int) =~= rest + b);
        lemma_children_diags_concat::<H>(rest, b, skip_types);
        assert(children_diags::<H>(a + b, skip_types) =~= children_diags::<H>(a, skip_types)
            + children_diags::<H>(b, skip_types));
    }
}

/// Traversing a single child appends exactly that child's diagnostics.
pub proof fn lemma_children_diags_singleton<H: NodeHandler>(c: Node, skip_types: bool)
    ensures
        children_diags::<H>(seq![c], skip_types) == node_diags::<H>(c, skip_types),
{
    assert(seq![c].subrange(1, 1) =~= Seq::<Node>::empty());
    assert(children_diags::<H>(Seq::<Node>::empty(), skip_types) == Seq::<DiagView>::empty());
    assert(seq![c][0] == c);
    assert(children_diags::<H>(seq![c], skip_types) =~= node_diags::<H>(c, skip_types));
}

/// The traversal engine: a total, depth-first, single-pass, pre-order walk
/// of the subtree at `n`. Variable declarations are handed to the rule's
/// handler; with `skip_types` set, type-only subtrees are pruned before
/// descent; every other node kind falls through to the default of visiting
/// the children in source order and reporting nothing.
pub fn walk_node<H: NodeHandler>(h: &H, ctx: &mut Context, n: &Node, skip_types: bool)
    ensures
        final(ctx)@ == old(ctx)@ + node_diags::<H>(*n, skip_types),
    decreases *n,
{
    match n.kind {
        NodeKind::VarDecl(kw) => {
            h.on_var_decl(ctx, n.span, kw);
        },
        NodeKind::TypeSyntax => {
            if skip_types {
                proof {
                    assert(ctx@ =~= old(ctx)@ + node_diags::<H>(*n, skip_types));
                }
                return;
            }
        },
        NodeKind::Other(_) => {},
    }
    let ghost base = ctx@;
    let mut i: usize = 0;
    while i < n.children.len()
        invariant
            i <= n.children.len(),
            ctx@ == base + children_diags::<H>(n.children@.subrange(0, i as int), skip_types),
        decreases n.children.len() - i,
    {
        proof {
            assert(decreases_to!(*n => n.children@[i as int]));
        }
        walk_node(h, ctx, &n.children[i], skip_types);
        proof {
            let pre = n.children@.subrange(0, i as int);
            assert(n.children@.subrange(0, i as int + 1) =~= pre + seq![n.children@[i as int]]);
            lemma_children_diags_concat::<H>(pre, seq![n.children@[i as int]], skip_types);
            lemma_children_diags_singleton::<H>(n.children@[i as int], skip_types);
        }
        i = i + 1;
    }
    proof {
        assert(n.children@.subrange(0, n.children@.len() as int) =~= n.children@);
        assert(ctx@ =~= old(ctx)@ + node_diags::<H>(*n, skip_types));
    }
}

/// The contract every lint rule satisfies: construction, a stable
/// identifier, a documentation payload, and the linting entry point.
///
/// `report` is the rule's specification: the diagnostics one run appends
/// for a given program. That the appended sequence is a function of the
/// program alone makes every rule deterministic by contract.
pub trait LintRule {
    /// The rule's stable identifier, as a character sequence.
    spec fn code_spec() -> Seq<char>;

    /// The rule's documentation payload, as a character sequence.
    spec fn docs_spec() -> Seq<char>;

    /// The diagnostics one run of the rule appends for `p`.
    spec fn report(p: Program) -> Seq<DiagView>;

    /// Produces a fresh, stateless instance.
    fn new() -> (rule: Box<Self>);

    /// The rule's stable, globally unique, kebab-style identifier; constant
    /// across calls.
    fn code(&self) -> (r: &'static str)
        ensures
            r@ == Self::code_spec(),
    ;

    /// The sole linting entry point: dispatches on the program variant,
    /// walks the tree, and appends this rule's diagnostics to `ctx` in
    /// traversal order.
    fn lint_program(&self, ctx: &mut Context, p: &Program)
        ensures
            final(ctx)@ == old(ctx)@ + Self::report(*p),
    ;

    /// The documentation payload: a prose explanation followed by an
    /// "Invalid" and a "Valid" fenced example section; constant across
    /// calls.
    fn docs(&self) -> (r: &'static str)
        ensures
            r@ == Self::docs_spec(),
    ;
}

/// Determinism: two runs of the same rule over the same program, each on a
/// context with the same prior contents, leave identical diagnostic
/// sequences behind.
pub proof fn lemma_rule_deterministic<R: LintRule>(
    before1: Seq<DiagView>,
    before2: Seq<DiagView>,
    p: Program,
)
    requires
        before1 == before2,
    ensures
        before1 + R::report(p) == before2 + R::report(p),
{
}

/// Forward compatibility, part one: a node kind the engine does not
/// dispatch specially is identified only by its opaque tag, and the tag
/// never influences the traversal: two such nodes with the same span and
/// children yield the same diagnostics for every handler.
pub proof fn lemma_unhandled_kind_tag_irrelevant<H: NodeHandler>(
    tag1: u32,
    tag2: u32,
    span: Span,
    children: Vec<Node>,
    skip_types: bool,
)
    ensures
        node_diags::<H>((Node { kind: NodeKind::Other(tag1), span, children }), skip_types)
            == node_diags::<H>((Node { kind: NodeKind::Other(tag2), span, children }), skip_types),
{
}

/// Forward compatibility, part two: introducing a new, unrelated node kind
/// into the tree — a fresh leaf of a kind no rule dispatches on, inserted
/// anywhere among a node's children — does not change the diagnostic
/// sequence of any handler.
pub proof fn lemma_new_kind_leaf_no_change<H: NodeHandler>(
    s: Seq<Node>,
    i: int,
    leaf: Node,
    skip_types: bool,
)
    requires
        0 <= i <= s.len(),
        leaf.kind matches NodeKind::Other(_),
        leaf.children@.len() == 0,
    ensures
        children_diags::<H>(s.insert(i, leaf), skip_types) == children_diags::<H>(s, skip_types),
{
    assert(leaf.children@ =~= Seq::<Node>::empty());
    assert(node_diags::<H>(leaf, skip_types) =~= Seq::<DiagView>::empty());
    let prefix = s.subrange(0, i);
    let suffix = s.subrange(i, s.len() as int);
    assert(s.insert(i, leaf) =~= prefix + (seq![leaf] + suffix));
    lemma_children_diags_concat::<H>(prefix, seq![leaf] + suffix, skip_types);
    lemma_children_diags_concat::<H>(seq![leaf], suffix, skip_types);
    lemma_children_diags_singleton::<H>(leaf, skip_types);
    assert(s =~= prefix + suffix);
    lemma_children_diags_concat::<H>(prefix, suffix, skip_types);
    assert(children_diags::<H>(s.insert(i, leaf), skip_types) =~= children_diags::<H>(
        s,
        skip_types,
    ));
}

} // verus!
