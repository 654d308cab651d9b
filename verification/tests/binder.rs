use frontend::bind::{annotate, Annotate, Bindings, Type};
use frontend::parse::{Node, NodeIndex};
use frontend::{parse, tokenize};

#[test]
fn run() {
    let src = "let x = 0";
    println!("{}", src);

    let tokens = tokenize(src).unwrap();
    println!("{:?}", tokens);

    let ast = parse(src, &tokens).unwrap();
    println!("{:#?}", ast);

    let count = ast.nodes.len();
    let root = ast.root;
    let typed = annotate(ast);
    println!("{:#?}", typed);
    assert_eq!(typed.nodes.len(), count);
    assert_eq!(typed.types.len(), count);
    assert_eq!(typed.root, root);
    for (i, ty) in typed.types.iter().enumerate() {
        assert!(matches!(ty, Type::Var(n) if *n as usize == i));
    }
    assert!(matches!(typed.get(&typed.root), Node::Module { .. }));
    assert!(matches!(typed.get(&NodeIndex(0)), Node::Integer { .. }));
    assert!(matches!(typed.get(&NodeIndex(1)), Node::Let { mutable: false, .. }));

    println!("complete :3")
}

#[test]
fn every_node_gets_its_own_variable() {
    let src = "let f = fn (a, b) => if a == b { a + 1 } else { g(b) }";
    let tokens = tokenize(src).unwrap();
    let ast = parse(src, &tokens).unwrap();
    let count = ast.nodes.len();
    let typed = annotate(ast);
    assert_eq!(typed.types.len(), count);
    let numbers: Vec<u32> = typed
        .types
        .iter()
        .map(|ty| match ty {
            Type::Var(n) => *n,
            other => panic!("{:?} is no variable", other),
        })
        .collect();
    assert_eq!(numbers, (0..count as u32).collect::<Vec<_>>());
}

#[test]
fn annotation_of_an_empty_module() {
    let tokens = tokenize("").unwrap();
    let ast = parse("", &tokens).unwrap();
    let typed = annotate(ast);
    assert_eq!(typed.types.len(), 2);
    assert!(std::ptr::eq(typed.tokens, &tokens));
}

#[test]
fn annotate_state_starts_without_types() {
    let src = "1 + 1";
    let tokens = tokenize(src).unwrap();
    let ast = parse(src, &tokens).unwrap();
    let mut state = Annotate::new(ast);
    let before = format!("{:?}", state);
    assert_eq!(before.matches("None").count(), 5);
    state.impost(NodeIndex(0));
    state.annotate(NodeIndex(4));
    assert_eq!(format!("{:?}", state), before);
}

#[test]
fn scopes_nest() {
    let mut bindings = Bindings::new();
    assert_eq!(bindings.depth(), 1);
    bindings.scope_begin();
    assert_eq!(bindings.depth(), 2);
    bindings.scope_begin();
    assert_eq!(bindings.depth(), 3);
    bindings.scope_end();
    assert_eq!(bindings.depth(), 2);
    bindings.scope_end();
    assert_eq!(bindings.depth(), 1);
}

#[test]
fn leaving_a_scope_restores_what_was_there() {
    let mut bindings = Bindings::new();
    let before = format!("{:?}", bindings);
    bindings.scope_begin();
    bindings.scope_end();
    assert_eq!(format!("{:?}", bindings), before);
}

#[test]
fn leaving_without_a_scope_is_harmless() {
    let mut bindings = Bindings::new();
    bindings.scope_end();
    assert_eq!(bindings.depth(), 0);
    bindings.scope_end();
    assert_eq!(bindings.depth(), 0);
}
