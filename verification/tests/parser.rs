use frontend::parse::{parse, Ast, Node, NodeIndex};
use frontend::token::{tokenize, TokenStream, TT};

fn failures(src: &str) -> Vec<String> {
    let tokens = tokenize(src).unwrap();
    let report = parse(src, &tokens).unwrap_err();
    assert!(!report.ok());
    assert!(report.warnings().is_empty());
    report.errors().clone()
}

/// The statements of the block that the module of `ast` consists of.
fn statements(ast: &Ast) -> Vec<NodeIndex> {
    assert_eq!(ast.root.0 as usize + 1, ast.nodes.len());
    let Node::Module { root } = ast.get(&ast.root) else { panic!("the root is no module") };
    let Node::Block { expr } = ast.get(root) else { panic!("the module holds no block") };
    expr.clone()
}

fn text<'a>(tokens: &'a TokenStream<'a>, ast: &Ast, node: &NodeIndex) -> &'a str {
    match ast.get(node) {
        Node::Identifier { name } => tokens.str_from(name),
        Node::Integer { value } => tokens.str_from(value),
        Node::Float { value } => tokens.str_from(value),
        other => panic!("{:?} is no name or number", other),
    }
}

/// The tree below `node` in a compact form.
fn shape(tokens: &TokenStream, ast: &Ast, node: &NodeIndex) -> String {
    let list = |items: &Vec<NodeIndex>| {
        items.iter().map(|i| shape(tokens, ast, i)).collect::<Vec<_>>().join(" ")
    };
    match ast.get(node) {
        Node::Error => "<error>".to_string(),
        Node::Module { root } => format!("(module {})", shape(tokens, ast, root)),
        Node::Block { expr } => format!("{{{}}}", list(expr)),
        Node::Identifier { name } => tokens.str_from(name).to_string(),
        Node::Bool { value } => format!("{}", value),
        Node::Integer { value } => tokens.str_from(value).to_string(),
        Node::Float { value } => tokens.str_from(value).to_string(),
        Node::Fn { args, ret, expr } => {
            let args = args
                .iter()
                .map(|(name, ty)| match ty {
                    Some(ty) => format!("{}:{}", tokens.str_from(name), shape(tokens, ast, ty)),
                    None => tokens.str_from(name).to_string(),
                })
                .collect::<Vec<_>>()
                .join(" ");
            let ret = match ret {
                Some(ty) => format!(":{}", shape(tokens, ast, ty)),
                None => String::new(),
            };
            format!("(fn [{}]{} {})", args, ret, shape(tokens, ast, expr))
        }
        Node::Group { expr } => format!("(group {})", shape(tokens, ast, expr)),
        Node::Binary { left, op, right } => format!(
            "({} {} {})",
            tokens.str_from(op),
            shape(tokens, ast, left),
            shape(tokens, ast, right)
        ),
        Node::Unary { op, right } => {
            format!("({} {})", tokens.str_from(op), shape(tokens, ast, right))
        }
        Node::Call { expr, args, .. } => {
            format!("(call {} [{}])", shape(tokens, ast, expr), list(args))
        }
        Node::If { condition, then_branch, else_branch, .. } => match else_branch {
            Some(other) => format!(
                "(if {} {} {})",
                shape(tokens, ast, condition),
                shape(tokens, ast, then_branch),
                shape(tokens, ast, other)
            ),
            None => format!(
                "(if {} {})",
                shape(tokens, ast, condition),
                shape(tokens, ast, then_branch)
            ),
        },
        Node::Let { mutable, name, expr, annotation } => {
            let ty = match annotation {
                Some(ty) => format!(":{}", shape(tokens, ast, ty)),
                None => String::new(),
            };
            format!(
                "({} {}{} {})",
                if *mutable { "mut" } else { "let" },
                tokens.str_from(name),
                ty,
                shape(tokens, ast, expr)
            )
        }
    }
}

fn tree(src: &str) -> String {
    let tokens = tokenize(src).unwrap();
    let ast = parse(src, &tokens).unwrap();
    for (i, node) in ast.nodes.iter().enumerate() {
        assert!(!matches!(node, Node::Error));
        let below = |h: &NodeIndex| assert!((h.0 as usize) < i);
        match node {
            Node::Module { root } => below(root),
            Node::Block { expr } => expr.iter().for_each(below),
            Node::Fn { args, ret, expr } => {
                args.iter().filter_map(|a| a.1.as_ref()).for_each(below);
                ret.iter().for_each(below);
                below(expr);
            }
            Node::Group { expr } => below(expr),
            Node::Binary { left, right, .. } => {
                below(left);
                below(right);
            }
            Node::Unary { right, .. } => below(right),
            Node::Call { expr, args, .. } => {
                below(expr);
                args.iter().for_each(below);
            }
            Node::If { condition, then_branch, else_branch, .. } => {
                below(condition);
                below(then_branch);
                else_branch.iter().for_each(below);
            }
            Node::Let { expr, annotation, .. } => {
                below(expr);
                annotation.iter().for_each(below);
            }
            _ => {}
        }
    }
    shape(&tokens, &ast, &ast.root)
}

#[test]
fn binary() {
    let src = "1 + 1";
    let tokens = tokenize(src).unwrap();
    let ast = parse(src, &tokens).unwrap();
    println!("{:#?}", ast);

    let body = statements(&ast);
    assert_eq!(body.len(), 1);
    let Node::Binary { left, op, right } = ast.get(&body[0]) else { panic!("no binary node") };
    assert_eq!(op.kind, TT::Plus);
    assert!(matches!(ast.get(left), Node::Integer { .. }));
    assert!(matches!(ast.get(right), Node::Integer { .. }));
    assert_eq!(text(&tokens, &ast, left), "1");
    assert_eq!(text(&tokens, &ast, right), "1");
    assert_eq!(ast.nodes.len(), 5);
    assert_eq!((left.0, right.0, body[0].0, ast.root.0), (0, 1, 2, 4));
}

#[test]
fn call() {
    let src = "let f = fn (a) => a + a";
    let tokens = tokenize(src).unwrap();
    let ast = parse(src, &tokens).unwrap();
    println!("{:#?}", ast);

    let body = statements(&ast);
    assert_eq!(body.len(), 1);
    let Node::Let { mutable, name, expr, annotation } = ast.get(&body[0]) else {
        panic!("no let node")
    };
    assert!(!*mutable);
    assert_eq!(tokens.str_from(name), "f");
    assert!(annotation.is_none());
    let Node::Fn { args, ret, expr } = ast.get(expr) else { panic!("no fn node") };
    assert_eq!(args.len(), 1);
    assert_eq!(tokens.str_from(args[0].0), "a");
    assert!(args[0].1.is_none());
    assert!(ret.is_none());
    let Node::Binary { left, op, right } = ast.get(expr) else { panic!("no binary node") };
    assert_eq!(op.kind, TT::Plus);
    assert!(matches!(ast.get(left), Node::Identifier { .. }));
    assert!(matches!(ast.get(right), Node::Identifier { .. }));
    assert_eq!(text(&tokens, &ast, left), "a");
    assert_eq!(text(&tokens, &ast, right), "a");
}

#[test]
fn empty_source_is_an_empty_module() {
    assert_eq!(tree(""), "(module {})");
    assert_eq!(tree("  \n "), "(module {})");
    let tokens = tokenize("").unwrap();
    let ast = parse("", &tokens).unwrap();
    assert_eq!(ast.nodes.len(), 2);
    assert_eq!(ast.root, NodeIndex(1));
}

#[test]
fn literals_and_names() {
    assert_eq!(tree("x"), "(module {x})");
    assert_eq!(tree("true false"), "(module {true false})");
    assert_eq!(tree("12 1.5 7."), "(module {12 1.5 7.})");
}

#[test]
fn precedence_of_the_binary_tiers() {
    assert_eq!(tree("1 + 2 * 3"), "(module {(+ 1 (* 2 3))})");
    assert_eq!(tree("1 * 2 + 3"), "(module {(+ (* 1 2) 3)})");
    assert_eq!(tree("1 + 2 == 3 * 4"), "(module {(== (+ 1 2) (* 3 4))})");
    assert_eq!(tree("a == b == c"), "(module {(== (== a b) c)})");
}

#[test]
fn binary_operators_group_to_the_left() {
    assert_eq!(tree("1 - 2 - 3"), "(module {(- (- 1 2) 3)})");
    assert_eq!(tree("8 / 4 / 2 * 3"), "(module {(* (/ (/ 8 4) 2) 3)})");
    assert_eq!(tree("1 + 2 - 3 + 4"), "(module {(+ (- (+ 1 2) 3) 4)})");
}

#[test]
fn prefix_minus() {
    assert_eq!(tree("-1"), "(module {(- 1)})");
    assert_eq!(tree("- - x"), "(module {(- (- x))})");
    assert_eq!(tree("-a * b"), "(module {(* (- a) b)})");
    assert_eq!(tree("a - -b"), "(module {(- a (- b))})");
    assert_eq!(tree("-f(x)"), "(module {(- (call f [x]))})");
}

#[test]
fn groups() {
    assert_eq!(tree("(1)"), "(module {(group 1)})");
    assert_eq!(tree("(1 + 2) * 3"), "(module {(* (group (+ 1 2)) 3)})");
    assert_eq!(tree("((x))"), "(module {(group (group x))})");
}

#[test]
fn calls() {
    assert_eq!(tree("f()"), "(module {(call f [])})");
    assert_eq!(tree("f(1)"), "(module {(call f [1])})");
    assert_eq!(tree("f(1, 2 + 3, g(x))"), "(module {(call f [1 (+ 2 3) (call g [x])])})");
    assert_eq!(tree("f(1)(2)()"), "(module {(call (call (call f [1]) [2]) [])})");
    assert_eq!(tree("(f)(x)"), "(module {(call (group f) [x])})");
}

#[test]
fn call_keeps_its_closing_parenthesis() {
    let src = "f(1)";
    let tokens = tokenize(src).unwrap();
    let ast = parse(src, &tokens).unwrap();
    let body = statements(&ast);
    let Node::Call { op, .. } = ast.get(&body[0]) else { panic!("no call node") };
    assert_eq!(op.kind, TT::RParen);
    assert_eq!(op.src, (3, 4));
}

#[test]
fn conditionals() {
    assert_eq!(tree("if a b"), "(module {(if a b)})");
    assert_eq!(tree("if a b else c"), "(module {(if a b c)})");
    assert_eq!(tree("if a == 1 { b } else { c }"), "(module {(if (== a 1) {b} {c})})");
    assert_eq!(tree("if a if b c else d"), "(module {(if a (if b c d))})");
    assert_eq!(tree("if a b else if c d else e"), "(module {(if a b (if c d e))})");
}

#[test]
fn function_literals() {
    assert_eq!(tree("fn () => 1"), "(module {(fn [] 1)})");
    assert_eq!(tree("fn (a) => a"), "(module {(fn [a] a)})");
    assert_eq!(tree("fn (a, b) => a + b"), "(module {(fn [a b] (+ a b))})");
    assert_eq!(tree("fn (a b) => a"), "(module {(fn [a b] a)})");
    assert_eq!(tree("fn (a,) => a"), "(module {(fn [a] a)})");
    assert_eq!(tree("fn (a: int, b) : bool => a"), "(module {(fn [a:int b]:bool a)})");
    assert_eq!(tree("fn (a) => fn (b) => a"), "(module {(fn [a] (fn [b] a))})");
    assert_eq!(tree("fn (a) => if a 1 else 2"), "(module {(fn [a] (if a 1 2))})");
}

#[test]
fn bindings() {
    assert_eq!(tree("let x = 1"), "(module {(let x 1)})");
    assert_eq!(tree("mut x = 1"), "(module {(mut x 1)})");
    assert_eq!(tree("let x: int = 1 + 2"), "(module {(let x:int (+ 1 2))})");
    assert_eq!(tree("let f = fn (x) => x"), "(module {(let f (fn [x] x))})");
}

#[test]
fn blocks_and_separators() {
    assert_eq!(tree("{}"), "(module {{}})");
    assert_eq!(tree("{ 1 }"), "(module {{1}})");
    assert_eq!(tree("{ 1; 2; }"), "(module {{1 2}})");
    assert_eq!(tree("{ 1 2 }"), "(module {{1 2}})");
    assert_eq!(tree("1; 2"), "(module {1 2})");
    assert_eq!(tree("1 2;"), "(module {1 2})");
    assert_eq!(tree("let x = { let y = 1; y }"), "(module {(let x {(let y 1) y})})");
    assert_eq!(tree("{ { } }"), "(module {{{}}})");
}

#[test]
fn block_may_run_to_the_end_of_input() {
    assert_eq!(tree("{ 1"), "(module {{1}})");
    assert_eq!(tree("{"), "(module {{}})");
}

#[test]
fn statements_need_no_separator() {
    assert_eq!(tree("a b c"), "(module {a b c})");
    assert_eq!(tree("1 - 1"), "(module {(- 1 1)})");
    assert_eq!(tree("1; - 1"), "(module {1 (- 1)})");
}

#[test]
fn handles_follow_the_order_of_creation() {
    let src = "let x = f(1, 2)";
    let tokens = tokenize(src).unwrap();
    let ast = parse(src, &tokens).unwrap();
    let names: Vec<&str> = ast
        .nodes
        .iter()
        .map(|node| match node {
            Node::Identifier { .. } => "identifier",
            Node::Integer { .. } => "integer",
            Node::Call { .. } => "call",
            Node::Let { .. } => "let",
            Node::Block { .. } => "block",
            Node::Module { .. } => "module",
            _ => "other",
        })
        .collect();
    assert_eq!(names, vec!["identifier", "integer", "integer", "call", "let", "block", "module"]);
}

#[test]
fn parsing_twice_gives_the_same_tree() {
    for src in ["1 + 1", "let f = fn (a) => a + a", "if a { b } else { c(1, 2) }", ""] {
        let tokens = tokenize(src).unwrap();
        let first = parse(src, &tokens).unwrap();
        let second = parse(src, &tokens).unwrap();
        assert_eq!(format!("{:?}", first.nodes), format!("{:?}", second.nodes));
        assert_eq!(first.root, second.root);
        let again = tokenize(src).unwrap();
        let third = parse(src, &again).unwrap();
        assert_eq!(format!("{:?}", first.nodes), format!("{:?}", third.nodes));
    }
    for src in ["(1 + 1", "let = 1", "fn (1) => 2"] {
        assert_eq!(failures(src), failures(src));
    }
}

#[test]
fn unmatched_parenthesis_fails() {
    assert_eq!(failures("(1 + 1"), vec!["expected ')', found (Eof : 0..0)".to_string()]);
    assert_eq!(failures("(1 + 1 2"), vec!["expected ')', found (Integer : 7..8)".to_string()]);
    assert_eq!(
        failures("((1)"),
        vec!["expected ')', found (Eof : 0..0)".to_string()],
    );
}

#[test]
fn unexpected_tokens_fail() {
    assert_eq!(failures(")"), vec!["unexpected token: RParen".to_string()]);
    assert_eq!(failures("1 +"), vec!["unexpected token: Eof".to_string()]);
    assert_eq!(failures("else"), vec!["unexpected token: Else".to_string()]);
    assert_eq!(failures("}"), vec!["unexpected token: RBrace".to_string()]);
    assert_eq!(failures("[1]"), vec![
        "unexpected token: LBracket".to_string(),
        "unexpected token: RBracket".to_string(),
    ]);
    assert_eq!(failures("a.b"), vec!["unexpected token: Dot".to_string()]);
    assert_eq!(failures("=>"), vec!["unexpected token: EqualGreater".to_string()]);
}

#[test]
fn one_pass_reports_every_error() {
    assert_eq!(
        failures("1 + ; ) 2 * ,"),
        vec![
            "unexpected token: SemiColon".to_string(),
            "unexpected token: RParen".to_string(),
            "unexpected token: Comma".to_string(),
        ],
    );
}

#[test]
fn missing_arrow_is_reported_and_the_body_still_read() {
    assert_eq!(
        failures("fn (a) a"),
        vec!["expected '=>', found (Identifier : 7..8)".to_string()],
    );
    assert_eq!(
        failures("fn (a) )"),
        vec![
            "expected '=>', found (RParen : 7..8)".to_string(),
            "unexpected token: RParen".to_string(),
        ],
    );
    assert_eq!(
        failures("fn ()"),
        vec!["expected '=>', found (Eof : 0..0)".to_string(), "unexpected token: Eof".to_string()],
    );
}

#[test]
fn malformed_function_literals() {
    assert_eq!(failures("fn"), vec!["expected '(', found (Eof : 0..0)".to_string()]);
    assert_eq!(
        failures("fn x"),
        vec!["expected '(', found (Identifier : 3..4)".to_string()],
    );
    assert_eq!(failures("fn ("), vec!["expected identifier, found (Eof : 0..0)".to_string()]);
    assert_eq!(
        failures("fn (1) => 2"),
        vec![
            "expected identifier, found (Integer : 4..5)".to_string(),
            "unexpected token: RParen".to_string(),
            "unexpected token: EqualGreater".to_string(),
        ],
    );
    assert_eq!(
        failures("fn (a: 1) => a"),
        vec!["unexpected token: Integer".to_string()],
    );
}

#[test]
fn malformed_bindings() {
    assert_eq!(failures("let"), vec!["expected identifier, found (Eof : 0..0)".to_string()]);
    assert_eq!(
        failures("let = 1"),
        vec![
            "expected identifier, found (Equal : 4..5)".to_string(),
            "unexpected token: Equal".to_string(),
        ],
    );
    assert_eq!(failures("let x"), vec!["expected '=', found (Eof : 0..0)".to_string()]);
    assert_eq!(
        failures("mut x 1"),
        vec!["expected '=', found (Integer : 6..7)".to_string()],
    );
    assert_eq!(failures("let x ="), vec!["unexpected token: Eof".to_string()]);
    assert_eq!(
        failures("let x: = 1"),
        vec![
            "unexpected token: Equal".to_string(),
            "expected '=', found (Integer : 9..10)".to_string(),
        ],
    );
}

#[test]
fn malformed_calls() {
    assert_eq!(failures("f(1"), vec!["expected ')', found (Eof : 0..0)".to_string()]);
    assert_eq!(
        failures("f("),
        vec!["unexpected token: Eof".to_string(), "expected ')', found (Eof : 0..0)".to_string()],
    );
    assert_eq!(
        failures("f(1 2)"),
        vec![
            "expected ')', found (Integer : 4..5)".to_string(),
            "unexpected token: RParen".to_string(),
        ],
    );
    assert_eq!(
        failures("f(1,)"),
        vec![
            "unexpected token: RParen".to_string(),
            "expected ')', found (Eof : 0..0)".to_string(),
        ],
    );
}

#[test]
fn conditional_at_the_end_of_input() {
    assert_eq!(
        failures("if"),
        vec!["unexpected token: Eof".to_string(), "unexpected token: Eof".to_string()],
    );
    assert_eq!(failures("if a"), vec!["unexpected token: Eof".to_string()]);
    assert_eq!(failures("if a b else"), vec!["unexpected token: Eof".to_string()]);
}
