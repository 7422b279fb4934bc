use fuusak::config::{new_default_config, FusionConfig};
use fuusak::ist::IntermediateSyntaxTree;
use fuusak::parser::parse;

fn no_change_config() -> FusionConfig {
    let mut config = new_default_config();
    config.newline_mode = "no-change".to_string();
    config
}

fn format_plain(input: &str) -> String {
    let config = no_change_config();
    let ast = parse("test", input, &config).unwrap_or_else(|error| panic!("Error: {}", error.to_string()));
    let ist = IntermediateSyntaxTree::from_ast(&ast)
        .unwrap_or_else(|error| panic!("Error: {}", error.to_string()));
    fuusak::format::format(&config, &ist)
}

fn expect_plain(input: &str, expected: &str) {
    let actual = format_plain(input);
    assert_eq!(expected.trim(), actual.trim(), "\nformatting {:?}", input);
    let again = format_plain(&actual);
    assert_eq!(actual, again, "\nformatting the output of {:?} again", input);
}

#[test]
fn format_clob() {
    expect_plain("{{ \"foo\" '''bar''' }}", "{{ \"foo\" '''bar''' }}");
    expect_plain("{{\n'''foo'''\n'''bar'''\n}}", "{{\n '''foo'''\n '''bar'''\n }}");
}

#[test]
fn format_comment_block() {
    expect_plain("/* foo baz */", "/* foo baz */");
    expect_plain("/**\n * foo\n * bar baz\n */", "/*\n * foo\n * bar baz\n */");
}

#[test]
fn format_multiline_string() {
    expect_plain(
        "(foo\n  '''\n    some text\n      indented\n    more\n  ''')",
        "(foo\n  '''\n  some text\n    indented\n  more\n  ''')",
    );
}

#[test]
fn format_simple_continuations() {
    expect_plain("(foo bar\nbaz)", "(foo bar\n     baz)");
    expect_plain("(foo\nbar)", "(foo\n  bar)");
    expect_plain("(\n a\n )", "(\n a\n )");
}

#[test]
fn format_complex_continuations() {
    expect_plain("(a (b\n c) (\nd e))", "(a (b\n     c) (\n         d e))");
    expect_plain("((lambda (x) x)\n 1)", "((lambda (x) x)\n  1)");
}

#[test]
fn format_simple_function() {
    expect_plain(
        "(define (add_one x)\n\"Adds one\"\n(+ x 1))",
        "(define (add_one x)\n  \"Adds one\"\n  (+ x 1))",
    );
    expect_plain("(define (f x)\n\n\n      (g x)\n   )\n", "(define (f x)\n\n\n  (g x)\n  )");
}

#[test]
fn format_structs() {
    expect_plain("{foo:1,bar:2}", "{ foo: 1, bar: 2 }");
    expect_plain("{\n  a: 1,\n  b: 2\n}", "{\n  a: 1,\n  b: 2\n}");
}

#[test]
fn format_lists() {
    expect_plain("[1,2,3]", "[1, 2, 3]");
    expect_plain("[\n  1,\n  2,\n  // last\n]\n", "[\n 1,\n 2\n // last\n]");
    expect_plain("[\n\n\n1,\n2\n\n\n]", "[\n\n\n 1,\n 2\n\n\n]");
}

#[test]
fn format_real_world_1() {
    expect_plain(
        "// Copyright\n(module example \"/fusion\"\n\n  (require \"/fusion/list\")\n\n  (define (add_one x)\n    (+ x 1))\n\n  (provide add_one))\n",
        "// Copyright\n(module example \"/fusion\"\n\n  (require \"/fusion/list\")\n\n  (define (add_one x)\n    (+ x 1))\n\n  (provide add_one))\n",
    );
}
