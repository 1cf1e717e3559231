use lax_ast::ast_gen::{ast_path, define_ast, generate_ast};

const UNARY_SOURCE: &str = "use crate::error::*;\nuse crate::lexer::token::*;\n\npub enum Expr {\n    Unary(UnaryExpr),\n}\n\npub struct UnaryExpr {\n    operator: Token,\n    right: Box<Expr>,\n}\n\npub trait ExprVisitor<T> {\n    fn visit_unary_expr(&self, expr: &UnaryExpr) -> Result<T, LoxError>;\n}\n\nimpl UnaryExpr {\n    fn accept<T>(&self, visitor: &dyn ExprVisitor<T>) -> Result<T, LoxError> {\n        visitor.visit_unary_expr(self)\n    }\n}\n\n";

#[test]
fn one_node_kind() {
    let types = vec!["Unary    : Token operator, Box<Expr> right".to_string()];
    assert_eq!(define_ast("Expr", &types).as_deref(), Some(UNARY_SOURCE));
}

#[test]
fn no_node_kinds() {
    let expected = "use crate::error::*;\nuse crate::lexer::token::*;\n\npub enum Stmt {\n}\n\npub trait ExprVisitor<T> {\n}\n\n";
    assert_eq!(define_ast("Stmt", &Vec::new()).as_deref(), Some(expected));
}

#[test]
fn lower_case_visitor_names() {
    let types = vec!["IfElse : Expr cond".to_string()];
    let text = define_ast("Stmt", &types).unwrap();
    assert!(text.contains("    IfElse(IfElseStmt),\n"));
    assert!(text.contains("    cond: Expr,\n"));
    assert!(text.contains("fn visit_ifelse_stmt(&self, expr: &IfElseStmt)"));
    assert!(text.contains("visitor: &dyn StmtVisitor<T>"));
}

#[test]
fn malformed_descriptions_are_refused() {
    assert_eq!(define_ast("Expr", &vec!["Unary Token operator".to_string()]), None);
    assert_eq!(define_ast("Expr", &vec!["Unary : operator".to_string()]), None);
    assert_eq!(define_ast("Expr", &vec!["Unary : Token op,".to_string()]), None);
}

#[test]
fn path_is_lower_case() {
    assert_eq!(ast_path("out", "Expr").as_str(), "out/expr.rs");
}

#[test]
fn expression_tree() {
    let (path, text) = generate_ast("gen").unwrap();
    assert_eq!(path.as_str(), "gen/expr.rs");
    assert!(text.starts_with("use crate::error::*;\nuse crate::lexer::token::*;\n\npub enum Expr {\n    Binary(BinaryExpr),\n    Grouping(GroupingExpr),\n    Literal(LiteralExpr),\n    Unary(UnaryExpr),\n}\n\n"));
    assert!(text.contains("pub struct BinaryExpr {\n    left: Box<Expr>,\n    operator: Token,\n    right: Box<Expr>,\n}\n\n"));
    assert!(text.contains("pub struct LiteralExpr {\n    value: Object,\n}\n\n"));
    assert!(text.contains("    fn visit_grouping_expr(&self, expr: &GroupingExpr) -> Result<T, LoxError>;\n"));
    assert!(text.ends_with(&UNARY_SOURCE[UNARY_SOURCE.find("impl UnaryExpr").unwrap()..]));
}
