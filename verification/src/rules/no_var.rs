use vstd::prelude::*;

use crate::diag::Context;
use crate::diag::DiagView;
use crate::engine::children_diags;
use crate::engine::node_diags;
use crate::engine::program_diags;
use crate::engine::walk_node;
use crate::engine::LintRule;
use crate::engine::NodeHandler;
use crate::span::starts_non_decreasing;
use crate::span::Span;
use crate::tree::well_formed;
use crate::tree::DeclKeyword;
use crate::tree::Node;
use crate::tree::NodeKind;
use crate::tree::Program;

verus! {

/// The `no-var` rule: forbids variable declarations written with the `var`
/// keyword, in favour of the block-scoped `let` and `const`.
pub struct NoVar;

/// The rule's identifier.
pub open spec fn no_var_code() -> Seq<char> {
    "no-var"@
}

/// The fixed message every `no-var` diagnostic carries.
pub open spec fn no_var_message() -> Seq<char> {
    "`var` keyword is not allowed."@
}

/// The one diagnostic the rule reports for a forbidden declaration at
/// `span`.
pub open spec fn no_var_diag(span: Span) -> DiagView {
    DiagView { span, code: no_var_code(), message: no_var_message() }
}

/// The stateless visitor `NoVar` plugs into the traversal engine. It
/// overrides only variable-declaration nodes; everything else falls
/// through to the engine's default.
pub struct NoVarVisitor;

impl NoVarVisitor {
    pub fn new() -> (v: NoVarVisitor) {
        NoVarVisitor
    }
}

impl NodeHandler for NoVarVisitor {
    /// Exactly one diagnostic for a `var` declaration, none for any other
    /// keyword.
    open spec fn effect(span: Span, kw: DeclKeyword) -> Seq<DiagView> {
        if kw == DeclKeyword::Var {
            seq![no_var_diag(span)]
        } else {
            Seq::empty()
        }
    }

    fn on_var_decl(&self, ctx: &mut Context, span: Span, kw: DeclKeyword) {
        if kw == DeclKeyword::Var {
            ctx.add_diagnostic(span, "no-var", "`var` keyword is not allowed.");
            proof {
                assert(ctx@ =~= old(ctx)@ + Self::effect(span, kw));
            }
        } else {
            proof {
                assert(ctx@ =~= old(ctx)@ + Self::effect(span, kw));
            }
        }
    }
}

impl LintRule for NoVar {
    open spec fn code_spec() -> Seq<char> {
        no_var_code()
    }

    open spec fn docs_spec() -> Seq<char> {
        "Enforces the use of block scoped variables over more error prone function scoped variables. Block scoped variables are defined using `const` and `let` keywords.

`const` and `let` keywords ensure the variables defined using these keywords are not accessible outside their block scope. On the other hand, variables defined using `var` keyword are only limited by their function scope.

### Invalid:
```typescript
var foo = \"bar\";
```

### Valid:
```typescript
const foo = 1;
let bar = 2;
```
"@
    }

    /// One diagnostic per reachable `var` declaration, in traversal (that
    /// is, source) order, with type-only subtrees pruned.
    open spec fn report(p: Program) -> Seq<DiagView> {
        program_diags::<NoVarVisitor>(p, true)
    }

    fn new() -> (rule: Box<NoVar>) {
        Box::new(NoVar)
    }

    fn code(&self) -> (r: &'static str) {
        "no-var"
    }

    fn lint_program(&self, ctx: &mut Context, p: &Program) {
        let visitor = NoVarVisitor::new();
        match p {
            Program::Module(root) => walk_node(&visitor, ctx, root, true),
            Program::Script(root) => walk_node(&visitor, ctx, root, true),
        }
    }

    fn docs(&self) -> (r: &'static str) {
        "Enforces the use of block scoped variables over more error prone function scoped variables. Block scoped variables are defined using `const` and `let` keywords.

`const` and `let` keywords ensure the variables defined using these keywords are not accessible outside their block scope. On the other hand, variables defined using `var` keyword are only limited by their function scope.

### Invalid:
```typescript
var foo = \"bar\";
```

### Valid:
```typescript
const foo = 1;
let bar = 2;
```
"
    }
}

/// Whether the subtree at `n` holds no `var` declaration at all, at any
/// nesting depth.
pub open spec fn var_free(n: Node) -> bool
    decreases n,
{
    &&& n.kind != NodeKind::VarDecl(DeclKeyword::Var)
    &&& forall|i: int| 0 <= i < n.children@.len() ==> var_free(#[trigger] n.children@[i])
}

/// The spans of the `var` declarations the traversal reaches in the
/// subtree at `n`, in pre-order; with `skip_types` set, declarations inside
/// type-only subtrees are not reached.
pub open spec fn forbidden_spans(n: Node, skip_types: bool) -> Seq<Span>
    decreases n,
{
    match n.kind {
        NodeKind::VarDecl(kw) => if kw == DeclKeyword::Var {
            seq![n.span] + forbidden_spans_children(n.children@, skip_types)
        } else {
            forbidden_spans_children(n.children@, skip_types)
        },
        NodeKind::TypeSyntax => if skip_types {
            Seq::empty()
        } else {
            forbidden_spans_children(n.children@, skip_types)
        },
        NodeKind::Other(_) => forbidden_spans_children(n.children@, skip_types),
    }
}

/// The reachable `var`-declaration spans of the children in `s`, left to
/// right.
pub open spec fn forbidden_spans_children(s: Seq<Node>, skip_types: bool) -> Seq<Span>
    decreases s,
{
    if s.len() == 0 {
        Seq::empty()
    } else {
        forbidden_spans(s[0], skip_types) + forbidden_spans_children(
            s.subrange(1, s.len() as int),
            skip_types,
        )
    }
}

/// The diagnostics the rule owes for the given declaration spans: one per
/// span, with the rule's code and fixed message.
pub open spec fn no_var_diags_of(spans: Seq<Span>) -> Seq<DiagView> {
    spans.map_values(|sp: Span| no_var_diag(sp))
}

/// Exactness, over one subtree: the traversal appends exactly one
/// diagnostic, with code `no-var` and the node's own span, for every
/// reachable `var` declaration, in pre-order; declarations of other kinds
/// contribute nothing, at any nesting depth.
pub proof fn lemma_node_diags_exact(n: Node, skip_types: bool)
    ensures
        node_diags::<NoVarVisitor>(n, skip_types) == no_var_diags_of(
            forbidden_spans(n, skip_types),
        ),
    decreases n,
{
    lemma_children_diags_exact(n.children@, skip_types);
    assert(node_diags::<NoVarVisitor>(n, skip_types) =~= no_var_diags_of(
        forbidden_spans(n, skip_types),
    ));
}

proof fn lemma_children_diags_exact(s: Seq<Node>, skip_types: bool)
    ensures
        children_diags::<NoVarVisitor>(s, skip_types) == no_var_diags_of(
            forbidden_spans_children(s, skip_types),
        ),
    decreases s,
{
    if s.len() > 0 {
        lemma_node_diags_exact(s[0], skip_types);
        lemma_children_diags_exact(s.subrange(1, s.len() as int), skip_types);
    }
    assert(children_diags::<NoVarVisitor>(s, skip_types) =~= no_var_diags_of(
        forbidden_spans_children(s, skip_types),
    ));
}

/// Exactness, over a whole program: one run of `no-var` reports exactly
/// the reachable `var` declarations, each once, in source order of the
/// traversal, and nothing else.
pub proof fn lemma_report_exact(p: Program)
    ensures
        <NoVar as LintRule>::report(p) == no_var_diags_of(forbidden_spans(p.root(), true)),
{
    lemma_node_diags_exact(p.root(), true);
}

/// A subtree with no `var` declaration contributes no diagnostic.
pub proof fn lemma_var_free_no_diags(n: Node, skip_types: bool)
    requires
        var_free(n),
    ensures
        node_diags::<NoVarVisitor>(n, skip_types) == Seq::<DiagView>::empty(),
    decreases n,
{
    lemma_var_free_children_no_diags(n.children@, skip_types);
    assert(node_diags::<NoVarVisitor>(n, skip_types) =~= Seq::<DiagView>::empty());
}

proof fn lemma_var_free_children_no_diags(s: Seq<Node>, skip_types: bool)
    requires
        forall|i: int| 0 <= i < s.len() ==> var_free(#[trigger] s[i]),
    ensures
        children_diags::<NoVarVisitor>(s, skip_types) == Seq::<DiagView>::empty(),
    decreases s,
{
    if s.len() > 0 {
        let rest = s.subrange(1, s.len() as int);
        assert(var_free(s[0]));
        lemma_var_free_no_diags(s[0], skip_types);
        assert forall|i: int| 0 <= i < rest.len() implies var_free(#[trigger] rest[i]) by {
            assert(rest[i] == s[i + 1]);
        }
        lemma_var_free_children_no_diags(rest, skip_types);
    }
    assert(children_diags::<NoVarVisitor>(s, skip_types) =~= Seq::<DiagView>::empty());
}

/// A program with no `var` declaration yields an empty report.
pub proof fn lemma_clean_program_reports_nothing(p: Program)
    requires
        var_free(p.root()),
    ensures
        <NoVar as LintRule>::report(p) == Seq::<DiagView>::empty(),
{
    lemma_var_free_no_diags(p.root(), true);
}

proof fn lemma_forbidden_spans_bounded(n: Node, skip_types: bool)
    requires
        well_formed(n),
    ensures
        forall|k: int|
            0 <= k < forbidden_spans(n, skip_types).len() ==> n.span.start <= (#[trigger] forbidden_spans(
                n,
                skip_types,
            )[k]).start && forbidden_spans(n, skip_types)[k].start <= n.span.end,
    decreases n,
{
    lemma_forbidden_spans_children_bounded(n.children@, n.span.start, n.span.end, skip_types);
    let cs = forbidden_spans_children(n.children@, skip_types);
    let all = forbidden_spans(n, skip_types);
    assert forall|k: int|
        0 <= k < all.len() implies n.span.start <= (#[trigger] all[k]).start && all[k].start
        <= n.span.end by {
        match n.kind {
            NodeKind::VarDecl(kw) => {
                if kw == DeclKeyword::Var {
                    if 0 < k {
                        assert(all[k] == cs[k - 1]);
                    } else {
                        assert(all[0] == n.span);
                    }
                } else {
                    assert(all[k] == cs[k]);
                }
            },
            NodeKind::TypeSyntax => {
                if !skip_types {
                    assert(all[k] == cs[k]);
                }
            },
            NodeKind::Other(_) => {
                assert(all[k] == cs[k]);
            },
        }
    }
}

proof fn lemma_forbidden_spans_children_bounded(s: Seq<Node>, lo: u32, hi: u32, skip_types: bool)
    requires
        forall|i: int| 0 <= i < s.len() ==> well_formed(#[trigger] s[i]),
        forall|i: int|
            0 <= i < s.len() ==> lo <= (#[trigger] s[i]).span.start && s[i].span.end <= hi,
    ensures
        forall|k: int|
            0 <= k < forbidden_spans_children(s, skip_types).len() ==> lo
                <= (#[trigger] forbidden_spans_children(s, skip_types)[k]).start
                && forbidden_spans_children(s, skip_types)[k].start <= hi,
    decreases s,
{
    if s.len() > 0 {
        let rest = s.subrange(1, s.len() as int);
        lemma_forbidden_spans_bounded(s[0], skip_types);
        lemma_forbidden_spans_children_bounded(rest, lo, hi, skip_types);
        let a = forbidden_spans(s[0], skip_types);
        let b = forbidden_spans_children(rest, skip_types);
        assert forall|k: int|
            0 <= k < forbidden_spans_children(s, skip_types).len() implies lo
            <= (#[trigger] forbidden_spans_children(s, skip_types)[k]).start
            && forbidden_spans_children(s, skip_types)[k].start <= hi by {
            if k < a.len() {
                assert(forbidden_spans_children(s, skip_types)[k] == a[k]);
            } else {
                assert(forbidden_spans_children(s, skip_types)[k] == b[k - a.len()]);
            }
        }
    }
}

/// Source order, over one subtree: on a well-formed tree the reachable
/// `var`-declaration spans come out with non-decreasing start positions.
pub proof fn lemma_forbidden_spans_sorted(n: Node, skip_types: bool)
    requires
        well_formed(n),
    ensures
        starts_non_decreasing(forbidden_spans(n, skip_types)),
    decreases n,
{
    lemma_forbidden_spans_children_sorted(n.children@, skip_types);
    lemma_forbidden_spans_children_bounded(n.children@, n.span.start, n.span.end, skip_types);
    let cs = forbidden_spans_children(n.children@, skip_types);
    let all = forbidden_spans(n, skip_types);
    assert forall|j: int, k: int|
        0 <= j <= k < all.len() implies (#[trigger] all[j]).start <= (#[trigger] all[k]).start by {
        match n.kind {
            NodeKind::VarDecl(kw) => {
                if kw == DeclKeyword::Var {
                    if 0 < j {
                        assert(all[j] == cs[j - 1] && all[k] == cs[k - 1]);
                    } else if 0 < k {
                        assert(all[k] == cs[k - 1]);
                    }
                } else {
                    assert(all[j] == cs[j] && all[k] == cs[k]);
                }
            },
            NodeKind::TypeSyntax => {
                if !skip_types {
                    assert(all[j] == cs[j] && all[k] == cs[k]);
                }
            },
            NodeKind::Other(_) => {
                assert(all[j] == cs[j] && all[k] == cs[k]);
            },
        }
    }
}

proof fn lemma_forbidden_spans_children_sorted(s: Seq<Node>, skip_types: bool)
    requires
        forall|i: int| 0 <= i < s.len() ==> well_formed(#[trigger] s[i]),
        forall|i: int|
            0 <= i && i + 1 < s.len() ==> (#[trigger] s[i]).span.end <= s[i + 1].span.start,
    ensures
        starts_non_decreasing(forbidden_spans_children(s, skip_types)),
        forall|k: int|
            0 <= k < forbidden_spans_children(s, skip_types).len() ==> s.len() > 0 && s[0].span.start
                <= (#[trigger] forbidden_spans_children(s, skip_types)[k]).start,
    decreases s,
{
    if s.len() > 0 {
        let rest = s.subrange(1, s.len() as int);
        assert(well_formed(s[0]));
        lemma_forbidden_spans_sorted(s[0], skip_types);
        lemma_forbidden_spans_bounded(s[0], skip_types);
        assert forall|i: int| 0 <= i < rest.len() implies well_formed(#[trigger] rest[i]) by {
            assert(rest[i] == s[i + 1]);
        }
        assert forall|i: int|
            0 <= i && i + 1 < rest.len() implies (#[trigger] rest[i]).span.end
            <= rest[i + 1].span.start by {
            assert(rest[i] == s[i + 1] && rest[i + 1] == s[i + 2]);
        }
        lemma_forbidden_spans_children_sorted(rest, skip_types);
        let a = forbidden_spans(s[0], skip_types);
        let b = forbidden_spans_children(rest, skip_types);
        let cs = forbidden_spans_children(s, skip_types);
        assert forall|k: int| 0 <= k < cs.len() implies s.len() > 0 && s[0].span.start
            <= (#[trigger] cs[k]).start by {
            if k < a.len() {
                assert(cs[k] == a[k]);
            } else {
                assert(cs[k] == b[k - a.len()]);
                if rest.len() > 0 {
                    assert(s[0].span.end <= rest[0].span.start);
                }
            }
        }
        assert forall|j: int, k: int|
            0 <= j <= k < cs.len() implies (#[trigger] cs[j]).start <= (#[trigger] cs[k]).start by {
            if j < a.len() && k < a.len() {
                assert(cs[j] == a[j] && cs[k] == a[k]);
            } else if j < a.len() {
                assert(cs[j] == a[j] && cs[k] == b[k - a.len()]);
                assert(a[j].start <= s[0].span.end);
                if rest.len() > 0 {
                    assert(s[0].span.end <= rest[0].span.start);
                    assert(rest[0].span.start <= b[k - a.len()].start);
                }
            } else {
                assert(cs[j] == b[j - a.len()] && cs[k] == b[k - a.len()]);
            }
        }
    }
}

/// Diagnostic order is non-decreasing by span start: on a well-formed tree
/// the report matches source order.
pub proof fn lemma_report_source_ordered(p: Program)
    requires
        well_formed(p.root()),
    ensures
        starts_non_decreasing(
            <NoVar as LintRule>::report(p).map_values(|d: DiagView| d.span),
        ),
{
    lemma_report_exact(p);
    lemma_forbidden_spans_sorted(p.root(), true);
    let spans = forbidden_spans(p.root(), true);
    assert(<NoVar as LintRule>::report(p).map_values(|d: DiagView| d.span) =~= spans);
}

} // verus!
