use lint_engine::diag::Context;
use lint_engine::diag::Diagnostic;
use lint_engine::engine::LintRule;
use lint_engine::rules::no_var::NoVar;
use lint_engine::span::Span;
use lint_engine::tree::DeclKeyword;
use lint_engine::tree::Node;
use lint_engine::tree::NodeKind;
use lint_engine::tree::Program;
use swc_common::BytePos;
use swc_common::Spanned;
use swc_ecmascript::ast::Decl;
use swc_ecmascript::ast::Stmt;
use swc_ecmascript::ast::VarDeclKind;
use swc_ecmascript::parser::Parser;
use swc_ecmascript::parser::StringInput;
use swc_ecmascript::parser::Syntax;

const MESSAGE: &str = "`var` keyword is not allowed.";
const CODE: &str = "no-var";

/// Byte position the parser input starts at; swc reserves position zero.
const BASE: u32 = 1;

fn conv_span(s: swc_common::Span) -> Span {
    Span { start: s.lo.0 - BASE, end: s.hi.0 - BASE }
}

fn kw_of(kind: VarDeclKind) -> DeclKeyword {
    match kind {
        VarDeclKind::Var => DeclKeyword::Var,
        VarDeclKind::Let => DeclKeyword::Let,
        VarDeclKind::Const => DeclKeyword::Const,
    }
}

fn stmt_node(stmt: &Stmt) -> Node {
    match stmt {
        Stmt::Decl(Decl::Var(v)) => Node {
            kind: NodeKind::VarDecl(kw_of(v.kind)),
            span: conv_span(v.span),
            children: Vec::new(),
        },
        other => Node {
            kind: NodeKind::Other(0),
            span: conv_span(other.span()),
            children: Vec::new(),
        },
    }
}

/// Parses a source snippet as a script and embeds the statements the tests
/// use into the engine's program representation.
fn parse_program(src: &str) -> Program {
    let input = StringInput::new(src, BytePos(BASE), BytePos(BASE + src.len() as u32));
    let mut parser = Parser::new(Syntax::default(), input, None);
    let script = parser.parse_script().expect("source should parse");
    let children: Vec<Node> = script.body.iter().map(stmt_node).collect();
    Program::Script(Node {
        kind: NodeKind::Other(0),
        span: conv_span(script.span),
        children,
    })
}

fn lint(src: &str) -> Vec<Diagnostic> {
    let program = parse_program(src);
    let rule = <NoVar as LintRule>::new();
    let mut ctx = Context::new();
    rule.lint_program(&mut ctx, &program);
    ctx.diagnostics()
}

#[test]
fn no_var_valid() {
    assert!(lint(r#"let foo = 0; const bar = 1"#).is_empty());
}

#[test]
fn no_var_invalid() {
    let diags = lint("var foo = 0;");
    assert_eq!(diags.len(), 1);
    assert_eq!(diags[0].span.start, 0);
    assert_eq!(diags[0].message, MESSAGE);

    let diags = lint("let foo = 0; var bar = 1;");
    assert_eq!(diags.len(), 1);
    assert_eq!(diags[0].span.start, 13);
    assert_eq!(diags[0].message, MESSAGE);

    let diags = lint("let foo = 0; var bar = 1; var x = 2;");
    assert_eq!(diags.len(), 2);
    assert_eq!(diags[0].span.start, 13);
    assert_eq!(diags[0].message, MESSAGE);
    assert_eq!(diags[1].span.start, 26);
    assert_eq!(diags[1].message, MESSAGE);
}

#[test]
fn diagnostics_carry_rule_code() {
    let diags = lint("var foo = 0;");
    assert_eq!(diags.len(), 1);
    assert_eq!(diags[0].code, CODE);
    assert_eq!(diags[0].span.end, 12);
}

#[test]
fn two_runs_identical() {
    let first = lint("let a = 0; var b = 1; var c = 2;");
    let second = lint("let a = 0; var b = 1; var c = 2;");
    assert_eq!(first.len(), second.len());
    for (d1, d2) in first.iter().zip(second.iter()) {
        assert_eq!(d1.span, d2.span);
        assert_eq!(d1.code, d2.code);
        assert_eq!(d1.message, d2.message);
    }
}

#[test]
fn order_follows_source() {
    let diags = lint("var a = 0; let b = 1; var c = 2; var d = 3;");
    assert_eq!(diags.len(), 3);
    assert!(diags[0].span.start <= diags[1].span.start);
    assert!(diags[1].span.start <= diags[2].span.start);
}

#[test]
fn rule_code_is_stable() {
    let rule = <NoVar as LintRule>::new();
    assert_eq!(rule.code(), CODE);
    assert_eq!(rule.code(), CODE);
}

#[test]
fn docs_have_invalid_then_valid_sections() {
    let rule = <NoVar as LintRule>::new();
    let docs = rule.docs();
    let invalid = docs.find("### Invalid:").expect("docs should have an Invalid section");
    let valid = docs.find("### Valid:").expect("docs should have a Valid section");
    assert!(invalid < valid);
    assert!(docs.matches("```").count() >= 4);
}
