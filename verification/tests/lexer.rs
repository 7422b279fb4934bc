use fuusak::lexer::{FusionLexer, Rule};

fn expect_success(rule: Rule, expected: &str, input: &str) {
    match FusionLexer::parse(rule, input) {
        Ok(matched) => assert_eq!(expected, matched.as_str()),
        Err(error) => panic!("Error on {:?}: {}", input, error.to_string()),
    }
}

fn expect_whole(rule: Rule, input: &str) {
    expect_success(rule, input, input);
}

fn expect_fail(rule: Rule, input: &str) {
    if let Ok(success) = FusionLexer::parse(rule, input) {
        panic!("Expected failure on {:?}, but got: {:#?}", input, success);
    }
}

#[test]
fn null() {
    let success_cases = vec![
        "null",
        "null.blob",
        "null.clob",
        "null.bool",
        "null.int",
        "null.list",
        "null.decimal",
        "null.float",
        "null.symbol",
        "null.string",
        "null.timestamp",
        "null.sexp",
        "null.struct",
    ];
    for case in &success_cases {
        expect_whole(Rule::null, case);
    }

    let failure_cases = vec!["nul", "null.", "'null.list'", "'null'"];
    for case in &failure_cases {
        expect_fail(Rule::null, case);
    }
}

#[test]
fn annotations() {
    expect_whole(Rule::annotations, "foo::");
    expect_whole(Rule::annotations, "'foo'::");
    expect_whole(Rule::annotations, "'foo bar'::");
    expect_whole(Rule::annotations, "foo::bar::");
    expect_whole(Rule::annotations, "foo :: bar ::");
    expect_fail(Rule::annotations, "foo:");
    expect_fail(Rule::annotations, "foo");
    expect_fail(Rule::annotations, "null.symbol::");
}

#[test]
fn boolean() {
    expect_whole(Rule::boolean, "true");
    expect_whole(Rule::boolean, "false");
    expect_fail(Rule::boolean, "TRUE");
    expect_fail(Rule::boolean, "'true'");
}

#[test]
fn integer() {
    expect_whole(Rule::integer, "0");
    expect_whole(Rule::integer, "-0");
    expect_whole(Rule::integer, "123");
    expect_whole(Rule::integer, "-123");
    expect_whole(Rule::integer, "0xBeef");
    expect_whole(Rule::integer, "0b0101");
    expect_whole(Rule::integer, "1_2_3");
    expect_whole(Rule::integer, "0xFA_CE");
    expect_whole(Rule::integer, "0b10_10_10");
    expect_fail(Rule::integer, "+1");
    expect_fail(Rule::integer, "0123");
    expect_fail(Rule::integer, "1_");
    expect_fail(Rule::integer, "1__2");
    expect_fail(Rule::integer, "0x_12");
    expect_fail(Rule::integer, "_1");
}

#[test]
fn real_number() {
    expect_whole(Rule::real_number, "0.123");
    expect_whole(Rule::real_number, "-0.12e4");
    expect_whole(Rule::real_number, "-0.12d4");
    expect_whole(Rule::real_number, "0E0");
    expect_whole(Rule::real_number, "0D0");
    expect_whole(Rule::real_number, "0.");
    expect_whole(Rule::real_number, "-0e0");
    expect_whole(Rule::real_number, "-0d0");
    expect_whole(Rule::real_number, "-0.");
    expect_whole(Rule::real_number, "-0d-1");
    expect_whole(Rule::real_number, "123_456.789_012");
    expect_fail(Rule::real_number, "123_._456");
    expect_fail(Rule::real_number, "12__34.56");
    expect_fail(Rule::real_number, "123.456_");
    expect_fail(Rule::real_number, "-_123.456");
    expect_fail(Rule::real_number, "_123.456");
}

#[test]
fn symbol() {
    let success_cases = vec![
        "'myVar2'",
        "myVar2",
        "myvar2",
        "'hi ho'",
        "'\\'ahoy\\''",
        "''",
        "foo_baz",
        "+",
        "-",
    ];
    for case in &success_cases {
        expect_whole(Rule::symbol, case);
    }

    let failure_cases = vec!["", " ", "\t", "0", "0Foo", "1Foo"];
    for case in &failure_cases {
        expect_fail(Rule::symbol, case);
    }
}

#[test]
fn timestamp() {
    expect_whole(Rule::timestamp, "2007-02-23T12:14Z");
    expect_whole(Rule::timestamp, "2007-02-23T12:14:33.079-08:00");
    expect_whole(Rule::timestamp, "2007-02-23T20:14:33.079Z");
    expect_whole(Rule::timestamp, "2007-02-23T20:14:33.079+00:00");
    expect_whole(Rule::timestamp, "2007-02-23T20:14:33.079-00:00");
    expect_whole(Rule::timestamp, "2007-01-01T00:00-00:00");
    expect_whole(Rule::timestamp, "2007-01-01");
    expect_whole(Rule::timestamp, "2007-01-01T");
    expect_whole(Rule::timestamp, "2007-01T");
    expect_whole(Rule::timestamp, "2007T");
    expect_whole(Rule::timestamp, "2007-02-23");
    expect_whole(Rule::timestamp, "2007-02-23T00:00Z");
    expect_whole(Rule::timestamp, "2007-02-23T00:00+00:00");
    expect_whole(Rule::timestamp, "2007-02-23T00:00:00-00:00");
    expect_fail(Rule::timestamp, "2007");
    expect_fail(Rule::timestamp, "2007-01");
    expect_fail(Rule::timestamp, "2007-02-23T20:14:33.Z");
}

#[test]
fn string() {
    expect_whole(Rule::string, "\"\"");
    expect_whole(Rule::string, "\" my string \"");
    expect_whole(Rule::string, "\"\\\"\"");
    expect_whole(Rule::string, "\"\\uABCD\"");
    expect_whole(Rule::string, "\"\\n\"");
    expect_whole(Rule::string, "'''foo'''");
    expect_whole(Rule::string, "'''foo\nbar'''");
    expect_fail(Rule::string, "\"");
    expect_fail(Rule::string, "\"foo\nbar\"");
    expect_fail(Rule::string, "\"\\\"");
    expect_fail(Rule::string, "'''foo");
}

#[test]
fn blob() {
    expect_whole(Rule::blob, "{{\n +AB/ \n}}");
    expect_whole(Rule::blob, "{{ VG8gaW5maW5pdHkuLi4gYW5kIGJleW9uZCE= }}");
    expect_fail(Rule::blob, "{{ VG8gaW5maW5pdHkuLi4gYW5kIGJleW9uZCE= }");
}

#[test]
fn lexer_clob() {
    expect_whole(Rule::clob, "{{ \"foo bar\" }}");
    expect_whole(Rule::clob, "{{\n '''foo'''\n     '''bar'''\n}}");
    expect_fail(Rule::clob, "{{\n// no comments\n'''foo'''\n     '''bar'''\n}}");
}

#[test]
fn structure() {
    expect_whole(Rule::structure, "{}");
    expect_whole(Rule::structure, "{ }");
    expect_whole(Rule::structure, "{foo:1}");
    expect_whole(Rule::structure, "{ foo:1, bar:2 }");
    expect_whole(Rule::structure, "{ foo: 1, bar: 2, }");
    expect_whole(Rule::structure, "{ foo: 1, bar: { baz: 5 }, }");
    expect_whole(Rule::structure, "{ foo: annotated::1, bar: { baz: 5 }, }");
    expect_whole(Rule::structure, "{ foo: \"1 2 3\", bar: { baz: 5 }, }");
    expect_whole(Rule::structure, "{ foo: \"1 2 3\", bar: (+ 1 2) }");
    expect_whole(Rule::structure, "{ foo: \"1 2 3\", bar: annotated::[1, 2] }");
    expect_whole(Rule::structure, "{ foo: 2007-01-01 }");
    expect_fail(Rule::structure, "{");
    expect_fail(Rule::structure, "{ foo: 2007-01-01 ");
    expect_fail(Rule::structure, "{ foo 2007-01-01 }");
    expect_fail(Rule::structure, "{ 5 }");
    expect_fail(Rule::structure, "{ , baz: 5 }");
    expect_fail(Rule::structure, "{ annotated::foo: 1 }");
}

#[test]
fn list() {
    expect_whole(Rule::list, "[]");
    expect_whole(Rule::list, "[ ]");
    expect_whole(Rule::list, "[1, 2, 3]");
    expect_whole(Rule::list, "[1, 2, 3,]");
    expect_whole(Rule::list, "[1, 2, [b]]");
    expect_fail(Rule::list, "[1, , 2]");
    expect_fail(Rule::list, "[");
    expect_fail(Rule::list, "[[b]");
}

#[test]
fn sexpr() {
    expect_whole(Rule::sexpr, "()");
    expect_whole(Rule::sexpr, "(cons 1 2)");
    expect_whole(Rule::sexpr, "([hello][there])");
    expect_whole(Rule::sexpr, "(a+-b)");
    expect_whole(Rule::sexpr, "(a.b;)");
    expect_fail(Rule::sexpr, "(");
}

#[test]
fn comment() {
    expect_whole(Rule::line_comment, "// test\n");
    expect_success(Rule::line_comment, "// test\n", "// test\nfoo");
    expect_success(Rule::line_comment, "//test\n", "//test\nfoo");
    expect_success(Rule::line_comment, "///test\n", "///test\nfoo");
    expect_whole(Rule::block_comment, "/* test */");
    expect_whole(Rule::block_comment, "/* test\ntest */");
}

#[test]
fn whole_rules() {
    expect_whole(Rule::expr, "a::b::[1, 2]");
    expect_success(Rule::expr, "(a)", "(a) (b)");
    expect_whole(Rule::file, " (a) // c\n[b]\n");
    expect_whole(Rule::file, "");
    expect_fail(Rule::file, "(a");
    expect_fail(Rule::expr, " (a)");
    expect_fail(Rule::list, "(a)");
    expect_fail(Rule::sexpr, "[a]");
    expect_fail(Rule::structure, "{{ \"a\" }}");
    expect_fail(Rule::clob, "{ a: 1 }");
    expect_fail(Rule::block_comment, "/* open");
    expect_whole(Rule::line_comment, "// to the end");
    // A match that ends inside a character is none
    expect_whole(Rule::symbol, "'\u{e9}'");
}
