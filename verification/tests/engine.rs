use lint_engine::diag::Context;
use lint_engine::registry::Registry;
use lint_engine::diag::Diagnostic;
use lint_engine::engine::LintRule;
use lint_engine::rules::no_var::NoVar;
use lint_engine::span::Span;
use lint_engine::tree::DeclKeyword;
use lint_engine::tree::Node;
use lint_engine::tree::NodeKind;
use lint_engine::tree::Program;

fn leaf(kind: NodeKind, start: u32, end: u32) -> Node {
    Node { kind, span: Span::new(start, end), children: Vec::new() }
}

fn branch(kind: NodeKind, start: u32, end: u32, children: Vec<Node>) -> Node {
    Node { kind, span: Span::new(start, end), children }
}

fn run(program: &Program) -> Vec<Diagnostic> {
    let rule = <NoVar as LintRule>::new();
    let mut ctx = Context::new();
    rule.lint_program(&mut ctx, program);
    ctx.diagnostics()
}

#[test]
fn deeply_nested_var_is_found() {
    let var_decl = leaf(NodeKind::VarDecl(DeclKeyword::Var), 10, 21);
    let inner = branch(NodeKind::Other(7), 8, 23, vec![var_decl]);
    let outer = branch(NodeKind::Other(3), 0, 30, vec![inner]);
    let program = Program::Script(branch(NodeKind::Other(0), 0, 30, vec![outer]));
    let diags = run(&program);
    assert_eq!(diags.len(), 1);
    assert_eq!(diags[0].span, Span::new(10, 21));
    assert_eq!(diags[0].code, "no-var");
}

#[test]
fn module_variant_is_walked_too() {
    let var_decl = leaf(NodeKind::VarDecl(DeclKeyword::Var), 0, 11);
    let program = Program::Module(branch(NodeKind::Other(0), 0, 12, vec![var_decl]));
    let diags = run(&program);
    assert_eq!(diags.len(), 1);
    assert_eq!(diags[0].span, Span::new(0, 11));
}

#[test]
fn let_and_const_never_report() {
    let root = branch(
        NodeKind::Other(0),
        0,
        30,
        vec![
            leaf(NodeKind::VarDecl(DeclKeyword::Let), 0, 11),
            leaf(NodeKind::VarDecl(DeclKeyword::Const), 13, 26),
        ],
    );
    assert!(run(&Program::Script(root)).is_empty());
}

#[test]
fn type_subtrees_are_pruned() {
    // a `var` declaration that only occurs inside type-only syntax is not
    // reported: the traversal prunes the subtree before descending
    let var_in_type = leaf(NodeKind::VarDecl(DeclKeyword::Var), 5, 16);
    let type_subtree = branch(NodeKind::TypeSyntax, 0, 20, vec![var_in_type]);
    let var_outside = leaf(NodeKind::VarDecl(DeclKeyword::Var), 22, 33);
    let root = branch(NodeKind::Other(0), 0, 40, vec![type_subtree, var_outside]);
    let diags = run(&Program::Script(root));
    assert_eq!(diags.len(), 1);
    assert_eq!(diags[0].span, Span::new(22, 33));
}

#[test]
fn unknown_node_kinds_change_nothing() {
    let before = branch(
        NodeKind::Other(0),
        0,
        40,
        vec![
            leaf(NodeKind::VarDecl(DeclKeyword::Var), 0, 11),
            leaf(NodeKind::VarDecl(DeclKeyword::Var), 20, 31),
        ],
    );
    // the same tree with a freshly invented node kind inserted between the
    // two declarations
    let after = branch(
        NodeKind::Other(0),
        0,
        40,
        vec![
            leaf(NodeKind::VarDecl(DeclKeyword::Var), 0, 11),
            leaf(NodeKind::Other(999), 13, 18),
            leaf(NodeKind::VarDecl(DeclKeyword::Var), 20, 31),
        ],
    );
    let d1 = run(&Program::Script(before));
    let d2 = run(&Program::Script(after));
    assert_eq!(d1.len(), d2.len());
    for (a, b) in d1.iter().zip(d2.iter()) {
        assert_eq!(a.span, b.span);
        assert_eq!(a.code, b.code);
        assert_eq!(a.message, b.message);
    }
}

#[test]
fn context_appends_in_order_without_deduplication() {
    let mut ctx = Context::new();
    assert_eq!(ctx.len(), 0);
    ctx.add_diagnostic(Span::new(3, 5), "some-rule", "first");
    ctx.add_diagnostic(Span::new(3, 5), "some-rule", "first");
    ctx.add_diagnostic(Span::new(9, 12), "other-rule", "second");
    assert_eq!(ctx.len(), 3);
    let diags = ctx.diagnostics();
    assert_eq!(diags[0].span, Span::new(3, 5));
    assert_eq!(diags[1].span, Span::new(3, 5));
    assert_eq!(diags[0].message, diags[1].message);
    assert_eq!(diags[2].code, "other-rule");
}

#[test]
fn registry_rejects_duplicate_codes() {
    let mut registry = Registry::new();
    assert!(registry.register("no-var"));
    assert!(registry.register("no-empty"));
    assert!(!registry.register("no-var"));
    assert_eq!(registry.len(), 2);
    assert!(registry.contains_code("no-empty"));
    assert!(!registry.contains_code("no-undef"));
}

#[test]
fn empty_program_reports_nothing() {
    let program = Program::Script(leaf(NodeKind::Other(0), 0, 0));
    assert!(run(&program).is_empty());
}
