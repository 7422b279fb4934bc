use fuusak::check::unbound::{check, ModuleProvides};
use fuusak::config::new_default_config;
use fuusak::ist::IntermediateSyntaxTree;
use fuusak::parser::parse;

fn errors_with(modules: &Vec<ModuleProvides>, top_level: Vec<&str>, input: &str) -> Vec<String> {
    let ast = parse("test.fusion", input, &new_default_config())
        .unwrap_or_else(|error| panic!("Error: {}", error.to_string()));
    let ist = IntermediateSyntaxTree::from_ast(&ast)
        .unwrap_or_else(|error| panic!("Error: {}", error.to_string()));
    let top_level = top_level.into_iter().map(|name| name.to_string()).collect();
    check(modules, "test.fusion", input, top_level, &ist)
        .into_iter()
        .map(|error| error.to_string())
        .collect()
}

fn errors_of(input: &str) -> Vec<String> {
    errors_with(&Vec::new(), vec!["+", "display"], input)
}

fn expect_unbound(errors: &Vec<String>, names: Vec<&str>) {
    assert_eq!(names.len(), errors.len(), "{:#?}", errors);
    for (error, name) in errors.iter().zip(names.iter()) {
        assert!(
            error.ends_with(&format!("= Unbound identifier {}", name)),
            "expected {} to be reported, got {}",
            name,
            error
        );
    }
}

#[test]
fn check_unbound_identifier() {
    expect_unbound(&errors_of("(+ 1 2)"), vec![]);
    expect_unbound(&errors_of("(foo 1 2)"), vec!["foo"]);
    expect_unbound(&errors_of("(+ x 1)"), vec!["x"]);
    expect_unbound(&errors_of("(define (f x) (+ x y))"), vec!["y"]);
    expect_unbound(&errors_of("(define x 1) (+ x 1)"), vec![]);
    // A definition is seen from everywhere in the file, also from before it
    expect_unbound(&errors_of("(display (f 1))\n(define (f x) x)"), vec![]);
    let errors = errors_of("(define (f x)\n  (+ x y))");
    assert_eq!(1, errors.len());
    assert_eq!(
        " --> test.fusion:2:8\n  |\n2 |   (+ x y))\n  |        ^\n  |\n  = Unbound identifier y",
        errors[0]
    );
}

#[test]
fn check_scopes_of_binding_forms() {
    expect_unbound(&errors_of("(lambda (x) (+ x 1))"), vec![]);
    expect_unbound(&errors_of("(lambda args (display args))"), vec![]);
    expect_unbound(&errors_of("(lambda (x) (+ x 1)) x"), vec!["x"]);
    expect_unbound(&errors_of("(let [(x 1), (y x)] (+ x y))"), vec!["x"]);
    expect_unbound(&errors_of("(lets [(x 1), (y x)] (+ x y))"), vec![]);
    expect_unbound(&errors_of("(|x y| (+ x y z))"), vec!["z"]);
    expect_unbound(&errors_of("(module m \"/fusion\" (+ 1 a))"), vec!["a"]);
    expect_unbound(&errors_of("[a, {k: b}]"), vec!["a", "b"]);
    expect_unbound(&errors_of("(+ 'quoted name' 1)"), vec!["'quoted name'"]);
}

#[test]
fn check_quoting() {
    expect_unbound(&errors_of("(quote (a b c))"), vec![]);
    expect_unbound(&errors_of("(quasiquote (a (unquote b) c))"), vec!["b"]);
    expect_unbound(&errors_of("(quasiquote (a (b c)))"), vec![]);
}

#[test]
fn check_require() {
    let modules = vec![ModuleProvides {
        name: "/fusion/list".to_string(),
        provides: vec!["first".to_string(), "rest".to_string()],
    }];
    let top = vec!["+"];
    expect_unbound(
        &errors_with(&modules, top.clone(), "(require \"/fusion/list\") (first (rest x))"),
        vec!["x"],
    );
    let errors = errors_with(&modules, top.clone(), "(require \"/missing\")");
    assert_eq!(1, errors.len());
    assert!(errors[0].ends_with("= cannot find module named /missing"), "{}", errors[0]);
    let errors = errors_with(&modules, top.clone(), "(require 5)");
    assert!(errors[0].ends_with("= arguments to require must be string or s-expr"));
    let errors = errors_with(&modules, top.clone(), "(require [a])");
    assert!(errors[0].ends_with("= arguments to require must be string or s-expr"));
    expect_unbound(
        &errors_with(&modules, top.clone(), "(require (only_in \"/fusion/list\" first)) (first rest)"),
        vec!["rest"],
    );
    let errors = errors_with(&modules, top.clone(), "(require (only_in))");
    assert!(errors[0].ends_with("= expected module name in rename_in"));
    let errors = errors_with(&modules, top.clone(), "(require (only_in \"/fusion/list\" 5))");
    assert!(errors[0].ends_with("= expected symbol"));
    let errors = errors_with(&modules, top.clone(), "(require (prefix_in p \"/fusion/list\"))");
    assert!(errors[0].ends_with("= support for `(require (prefix_in ...))` is not implemented"));
    let errors = errors_with(&modules, top.clone(), "(require (other \"/fusion/list\"))");
    assert!(errors[0].ends_with("= invalid argument to require"));
    expect_unbound(
        &errors_with(
            &modules,
            top.clone(),
            "(require (rename_in \"/fusion/list\" (first head))) (head first)",
        ),
        vec!["first"],
    );
    let errors = errors_with(&modules, top.clone(), "(require (rename_in))");
    assert!(errors[0].ends_with("= expected module name in rename_in"));
    let errors = errors_with(&modules, top.clone(), "(require (rename_in \"/fusion/list\"))");
    assert!(errors[0].ends_with("= expected s-expression after module name"));
    let errors = errors_with(&modules, top.clone(), "(require (rename_in \"/fusion/list\" 5))");
    assert!(errors[0].ends_with("= expected s-expression"));
    let errors = errors_with(&modules, top.clone(), "(require (rename_in \"/fusion/list\" (first)))");
    assert!(errors[0].ends_with("= expected two symbols in rename_in pair"));
}
