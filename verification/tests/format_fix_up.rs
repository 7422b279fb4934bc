use fuusak::config::{new_default_config, FusionConfig};
use fuusak::ist::IntermediateSyntaxTree;
use fuusak::parser::parse;

fn format_with(config: &FusionConfig, input: &str) -> String {
    let ast = parse("test", input, config).unwrap_or_else(|error| panic!("Error: {}", error.to_string()));
    let ist = IntermediateSyntaxTree::from_ast(&ast)
        .unwrap_or_else(|error| panic!("Error: {}", error.to_string()));
    fuusak::format::format(config, &ist)
}

fn expect_formatted(config: &FusionConfig, input: &str, expected: &str) {
    let actual = format_with(config, input);
    assert_eq!(expected.trim(), actual.trim(), "\nformatting {:?}", input);
    let again = format_with(config, &actual);
    assert_eq!(actual, again, "\nformatting the output of {:?} again", input);
}

fn expect(input: &str, expected: &str) {
    expect_formatted(&new_default_config(), input, expected);
}

#[test]
fn mod_clob() {
    expect("{{ \"foo\" '''bar''' }}", "{{ \"foo\" '''bar''' }}");
    expect("{{\"foo\"}}", "{{ \"foo\" }}");
    expect("{{\n'''foo'''\n'''bar'''\n}}", "{{\n '''foo'''\n '''bar'''\n }}");
    expect("(foo ann::{{ \"x\" }})", "(foo ann::{{ \"x\" }})");
    expect("(foo {{ \"a\"\n'''b''' }})", "(foo {{ \"a\"\n        '''b''' }})");
}

#[test]
fn mod_comment_block() {
    expect("/* foo baz */", "/* foo baz */");
    expect("/*foo*/", "/* foo */");
    expect("/**\n * foo\n * bar baz\n */", "/*\n * foo\n * bar baz\n */");
    expect("(a\n  /* x\n     y */\n  b)", "(a\n  /* x\n   * y\n   */\n  b)");
    expect("/*\n * one\n *\n * two\n */", "/*\n * one\n *\n * two\n */");
}

#[test]
fn mod_multiline_string() {
    expect(
        "(foo\n  '''\n    some text\n      indented\n    more\n  ''')",
        "(foo\n  '''\n  some text\n    indented\n  more\n  ''')",
    );
    expect("'''foo\n  bar\n    baz'''", "'''foo\n  bar\n    baz'''");
    expect("(f '''one line''')", "(f '''one line''')");
    expect("'''trailing blanks  \t'''", "'''trailing blanks'''");
}

#[test]
fn multiline_string_with_text_on_first_line() {
    // The first line counts towards the common indentation, so the further lines keep
    // their own indentation and are moved right by the column of the opening quotes.
    let config = new_default_config();
    assert_eq!(
        "(foo '''a\n       b''')\n",
        format_with(&config, "(foo '''a\n  b''')")
    );
}

#[test]
fn multiline_string_no_change_whitespace() {
    let mut config = new_default_config();
    config.format_multiline_string_contents = false;
    expect_formatted(
        &config,
        "(foo\n  '''\n    some text\n      indented\n    more\n  ''')",
        "(foo\n  '''\n    some text\n      indented\n    more\n  ''')",
    );
    expect_formatted(&config, "(foo '''a\n  b''')", "(foo '''a\n  b''')");
}

#[test]
fn mod_simple_continuations() {
    expect("(foo bar\nbaz)", "(foo bar\n     baz)");
    expect("(foo\nbar)", "(foo\n  bar)");
    expect("(foo bar baz\n        qux)", "(foo bar baz\n     qux)");
    expect("(foo   bar    baz)", "(foo bar baz)");
    expect("(define x\n1)", "(define x\n  1)");
    expect("(1 2\n3)", "(1 2\n 3)");
}

#[test]
fn mod_complex_continuations() {
    expect("(a (b\n c) (\nd e))", "(a (b\n     c)\n   (d e))");
    expect("((lambda (x) x)\n 1)", "((lambda (x) x)\n  1)");
    expect("([a]\n b)", "([a]\n b)");
    expect("(if (a)\n(b)\n(c))", "(if (a)\n    (b)\n    (c))");
    expect("(if (a)\n(b)\n(c)\n(d)\n(e)\n(f))", "(if (a)\n  (b)\n  (c)\n  (d)\n  (e)\n  (f))");
    expect("(outer (inner one\ntwo)\nthree)", "(outer (inner one\n              two)\n       three)");
}

#[test]
fn mod_simple_function() {
    expect(
        "(define (add_one x)\n\"Adds one\"\n(+ x 1))",
        "(define (add_one x)\n  \"Adds one\"\n  (+ x 1))",
    );
    expect(
        "(lambda (x)\n  // comment\n  x)",
        "(lambda (x)\n  // comment\n  x)",
    );
    expect("(|x y| (+ x y))", "(|x y| (+ x y))");
    expect("(| x y | (+ x y))", "(|x y| (+ x y))");
    expect(
        "(let [(x 1),\n(y 2)]\n(+ x y))",
        "(let [(x 1),\n      (y 2)]\n  (+ x y))",
    );
}

#[test]
fn mod_structs() {
    expect("{foo:1,bar:2}", "{ foo: 1, bar: 2 }");
    expect("{}", "{}");
    expect("{ }", "{}");
    expect("{a:{b:{c:1}}}", "{ a: { b: { c: 1 }}}");
    expect("{ foo: 1, bar: 2, }", "{ foo: 1, bar: 2 }");
    expect("{ a: b::c::1, d: e::[1, 2] }", "{ a: b::c::1, d: e::[1, 2] }");
    expect(
        "{\n  a: 1,\n  b: 2\n}",
        "{ a: 1,\n  b: 2 }",
    );
    expect(
        "{\n  // leading comment\n  a: 1,\n\n  b: [1,\n 2],\n  'quoted key': (f\n x),\n  \"str key\": {}\n}\n",
        "{ // leading comment\n  a: 1,\n\n  b: [1,\n      2],\n  'quoted key': (f\n                  x),\n  \"str key\": {}}",
    );
}

#[test]
fn mod_lists() {
    expect("[1,2,3]", "[1, 2, 3]");
    expect("[1, 2, 3,]", "[1, 2, 3]");
    expect("[]", "[]");
    expect("[ ]", "[]");
    expect("[[1, 2], [3,\n4], []]", "[[1, 2], [3,\n          4], []]");
    expect("[1, // one\n 2]", "[1, // one\n 2]");
    expect("[\n  1,\n  2,\n  // last\n]\n", "[1,\n 2\n // last\n]");
    expect("[1 /* a */, 2]", "[1, /* a */2]");
}

#[test]
fn mod_fix_up() {
    expect("[\n\n\n1,\n2\n\n\n]", "[1,\n 2]");
    expect("[\n\n]", "[]");
    expect("(\n a\n )", "(a)");
    expect("(\n // c\n )", "(// c\n )");
    expect("(define (f x)\n\n\n      (g x)\n   )\n", "(define (f x)\n\n\n  (g x))");
    expect("(foo\n\n  bar\n\n\n  baz\n)", "(foo\n\n  bar\n\n\n  baz)");
    expect("(a (\n b c))", "(a\n  (b c))");
    expect("(a\n (\n b c))", "(a\n  (b c))");
    expect("{ a: {\n b: 1 } }", "{ a:\n    { b: 1 }}");
}

#[test]
fn mod_misc() {
    expect("(+ 1 2)", "(+ 1 2)");
    expect("foo::bar::(a b)", "foo::bar::(a b)");
    expect("'quoted sym'::\"text\"", "'quoted sym'::\"text\"");
    expect("(a . b |c| ~d)", "(a . b | c | ~ d)");
    expect("(foo)(bar)\n(baz)", "(foo)(bar)\n(baz)");
    expect("(foo bar) // trailing\n(baz)\n\n\n\n(qux)", "(foo bar)// trailing\n(baz)\n\n\n\n(qux)");
    expect("(foo\r\n  bar)\r\n", "(foo\n  bar)");
    expect("null.int", "null.int");
    expect("(f 2007-01-01T 1.5e3 0xFF true \"s\" {{ aGVsbG8= }})", "(f 2007-01-01T 1.5e3 0xFF true \"s\" {{ aGVsbG8= }})");
    expect("", "");
    expect("   \n\n  ", "");
}

#[test]
fn mod_real_world_1() {
    expect(
        "// Copyright\n(module example \"/fusion\"\n\n  (require \"/fusion/list\")\n\n  /**\n   * Adds one.\n   */\n  (define (add_one x)\n    (+ x 1))\n\n  (define (process items)\n    (let [(total (fold_left (lambda (acc item) (+ acc item)) 0 items)),\n          (count (size items))]\n      (if (> count 0)\n        (/ total count)\n        0)))\n\n  (provide add_one process))\n",
        "// Copyright\n(module example \"/fusion\"\n\n  (require \"/fusion/list\")\n\n  /*\n   * Adds one.\n   */\n  (define (add_one x)\n    (+ x 1))\n\n  (define (process items)\n    (let [(total (fold_left (lambda (acc item) (+ acc item)) 0 items)),\n          (count (size items))]\n      (if (> count 0)\n          (/ total count)\n          0)))\n\n  (provide add_one process))\n",
    );
}

#[test]
fn real_world_2() {
    expect(
        "(define   config\n  {\n    name: \"service\",\n    retries:3,\n    endpoints: [\n      \"a\",\n      \"b\",\n    ],\n    handler: (lambda (request)\n      (respond request 200)),\n  })\n\n(define (main args)\n  (when (is_empty args)\n    (displayln \"usage\")\n    (exit 1))\n  (run config))\n",
        "(define config\n  { name: \"service\",\n    retries: 3,\n    endpoints:\n      [\"a\",\n       \"b\"],\n    handler: (lambda (request)\n               (respond request 200)) })\n\n(define (main args)\n  (when (is_empty args)\n    (displayln \"usage\")\n    (exit 1))\n  (run config))\n",
    );
}
