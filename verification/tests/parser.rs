use fuusak::ast::{AtomicData, ClobExpr, Expr, ListData};
use fuusak::config::new_default_config;
use fuusak::model::AtomicType;
use fuusak::parser::{block_comment_lines, parse};
use fuusak::span::ShortSpan;

fn parse_ok(input: &str) -> Vec<Expr> {
    match parse("test", input, &new_default_config()) {
        Ok(ast) => ast,
        Err(error) => panic!("Error: {}", error.to_string()),
    }
}

fn atomic(expr: &Expr) -> &AtomicData {
    match expr {
        Expr::Atomic(data) => data,
        other => panic!("expected an atomic value, got {:?}", other),
    }
}

fn expect_atomic(expr: &Expr, typ: AtomicType, start: usize, end: usize, value: &str) {
    let data = atomic(expr);
    assert_eq!(typ, data.typ);
    assert_eq!(ShortSpan::new(start, end), data.span);
    assert_eq!(value, data.value);
    assert!(data.annotations.is_empty());
}

fn expect_newlines(expr: &Expr, start: usize, end: usize, count: u16) {
    match expr {
        Expr::Newlines(data) => {
            assert_eq!(ShortSpan::new(start, end), data.span);
            assert_eq!(count, data.newline_count);
        }
        other => panic!("expected newlines, got {:?}", other),
    }
}

fn list_data(expr: &Expr) -> &ListData {
    match expr {
        Expr::List(data) | Expr::SExpr(data) | Expr::Struct(data) => data,
        other => panic!("expected a list, an s-expression or a struct, got {:?}", other),
    }
}

/// The atomic values of a sequence on one line, with their kinds.
fn expect_atoms(input: &str, typ: AtomicType, values: Vec<&str>) {
    let joined = values.join(" ");
    assert_eq!(input, joined);
    let wrapped = format!("({})", input);
    let ast = parse_ok(&wrapped);
    assert_eq!(1, ast.len());
    let items = &list_data(&ast[0]).items;
    assert_eq!(values.len(), items.len());
    let mut start = 1;
    for (item, value) in items.iter().zip(values.iter()) {
        expect_atomic(item, typ, start, start + value.len(), value);
        start += value.len() + 1;
    }
}

#[test]
fn test_block_comment_lines() {
    assert_eq!(vec!["foo baz"], block_comment_lines("/* foo baz */"));
    assert_eq!(
        vec!["", "foo", "bar baz", ""],
        block_comment_lines(
            "/**
              * foo
              * bar baz
              */"
        )
    );
    assert_eq!(
        vec!["foo", "bar baz"],
        block_comment_lines(
            "/* foo
                bar baz */"
        )
    );
    assert_eq!(
        vec!["", "Foo", " some indented text", "bar baz", ""],
        block_comment_lines(
            "/**
              *Foo
              *  some indented text
              *bar baz
              */"
        )
    );
    assert_eq!(
        vec!["", "Foo", "  some indented text", "bar baz", ""],
        block_comment_lines(
            "/**
              * Foo
              *   some indented text
              * bar baz
              */"
        )
    );
}

#[test]
fn test_blob() {
    let ast = parse_ok("{{ VG8gaW5maW5pdHkuLi4gYW5kIGJleW9uZCE= }}\n{{\n +AB/ \n}}");
    assert_eq!(3, ast.len());
    expect_atomic(&ast[0], AtomicType::Blob, 0, 42, "{{ VG8gaW5maW5pdHkuLi4gYW5kIGJleW9uZCE= }}");
    expect_newlines(&ast[1], 42, 43, 1);
    expect_atomic(&ast[2], AtomicType::Blob, 43, 55, "{{\n +AB/ \n}}");
}

#[test]
fn test_boolean() {
    expect_atoms("true false", AtomicType::Boolean, vec!["true", "false"]);
    let ast = parse_ok("truest");
    expect_atomic(&ast[0], AtomicType::Symbol, 0, 6, "truest");
}

#[test]
fn test_comment() {
    let ast = parse_ok("// line\n/* block */\n(a // inner\n b)");
    assert_eq!(5, ast.len());
    match &ast[0] {
        Expr::CommentLine(data) => {
            assert_eq!("// line", data.value);
            assert_eq!(ShortSpan::new(0, 8), data.span);
        }
        other => panic!("expected a line comment, got {:?}", other),
    }
    expect_newlines(&ast[1], 0, 8, 1);
    match &ast[2] {
        Expr::CommentBlock(data) => {
            assert_eq!(vec!["block"], data.value);
            assert_eq!(ShortSpan::new(8, 19), data.span);
        }
        other => panic!("expected a block comment, got {:?}", other),
    }
    expect_newlines(&ast[3], 19, 20, 1);
    let items = &list_data(&ast[4]).items;
    assert_eq!(4, items.len());
    assert!(items[1].is_comment_line());
    expect_newlines(&items[2], 23, 32, 1);
    expect_atomic(&items[3], AtomicType::Symbol, 33, 34, "b");
}

#[test]
fn test_clob() {
    let ast = parse_ok("{{ \"foo bar\" }}\nnote::{{\n '''foo'''\n     '''bar'''\n}}");
    assert_eq!(3, ast.len());
    match &ast[0] {
        Expr::Clob(data) => {
            assert_eq!(ShortSpan::new(0, 15), data.span);
            assert_eq!(1, data.clobs.len());
            match &data.clobs[0] {
                ClobExpr::QuotedString(string) => {
                    assert_eq!("foo bar", string.value);
                    assert_eq!(ShortSpan::new(3, 12), string.span);
                }
                other => panic!("expected a quoted string, got {:?}", other),
            }
        }
        other => panic!("expected a clob, got {:?}", other),
    }
    match &ast[2] {
        Expr::Clob(data) => {
            assert_eq!(vec!["note::"], data.annotations);
            assert_eq!(5, data.clobs.len());
            assert!(data.clobs[0].is_newlines());
            match &data.clobs[1] {
                ClobExpr::MultilineString(string) => assert_eq!("foo", string.value),
                other => panic!("expected a long string, got {:?}", other),
            }
            assert!(data.clobs[2].is_newlines());
            match &data.clobs[3] {
                ClobExpr::MultilineString(string) => assert_eq!("bar", string.value),
                other => panic!("expected a long string, got {:?}", other),
            }
            assert!(data.clobs[4].is_newlines());
        }
        other => panic!("expected a clob, got {:?}", other),
    }
}

#[test]
fn test_mixed() {
    let ast = parse_ok("(define (f x)\n  [x, {a: 1}, \"s\", '''long''', null])\n");
    assert_eq!(2, ast.len());
    let define = list_data(&ast[0]);
    assert!(ast[0].is_sexpr());
    assert_eq!(4, define.items.len());
    assert_eq!(Some("define"), define.items[0].stripped_symbol_value());
    assert!(define.items[1].is_sexpr());
    assert!(define.items[2].is_newlines());
    let list = list_data(&define.items[3]);
    assert_eq!(5, list.items.len());
    assert!(list.items[0].is_symbol());
    assert!(list.items[1].is_struct());
    expect_atomic(&list.items[2], AtomicType::QuotedString, 28, 31, "s");
    match &list.items[3] {
        Expr::MultilineString(data) => assert_eq!("long", data.value),
        other => panic!("expected a long string, got {:?}", other),
    }
    expect_atomic(&list.items[4], AtomicType::Null, 45, 49, "null");
    expect_newlines(&ast[1], 51, 52, 1);
}

#[test]
fn test_integer() {
    expect_atoms(
        "0 -0 123 -123 0xBeef 0b0101 1_2_3 0xFA_CE",
        AtomicType::Integer,
        vec!["0", "-0", "123", "-123", "0xBeef", "0b0101", "1_2_3", "0xFA_CE"],
    );
}

#[test]
fn test_list() {
    let ast = parse_ok("[1, 2, [b],]");
    assert_eq!(1, ast.len());
    let list = list_data(&ast[0]);
    assert!(ast[0]._is_list());
    assert_eq!(ShortSpan::new(0, 12), list.span);
    assert_eq!(3, list.items.len());
    expect_atomic(&list.items[0], AtomicType::Integer, 1, 2, "1");
    expect_atomic(&list.items[1], AtomicType::Integer, 4, 5, "2");
    let inner = list_data(&list.items[2]);
    assert_eq!(ShortSpan::new(7, 10), inner.span);
    expect_atomic(&inner.items[0], AtomicType::Symbol, 8, 9, "b");
    assert!(parse_ok("[]").len() == 1);
    assert!(list_data(&parse_ok("[ ]")[0]).items.is_empty());
}

#[test]
fn test_real() {
    expect_atoms(
        "0.123 -0.12e4 -0.12d4 0E0 0. -0d-1 123_456.789_012",
        AtomicType::Real,
        vec!["0.123", "-0.12e4", "-0.12d4", "0E0", "0.", "-0d-1", "123_456.789_012"],
    );
}

#[test]
fn test_sexp() {
    let ast = parse_ok("(cons 1 2) () ([hello][there])");
    assert_eq!(3, ast.len());
    let cons = list_data(&ast[0]);
    assert_eq!(ShortSpan::new(0, 10), cons.span);
    assert_eq!(3, cons.items.len());
    expect_atomic(&cons.items[0], AtomicType::Symbol, 1, 5, "cons");
    assert!(list_data(&ast[1]).items.is_empty());
    let lists = list_data(&ast[2]);
    assert_eq!(2, lists.items.len());
    assert!(lists.items[0]._is_list());
    assert!(lists.items[1]._is_list());
}

#[test]
fn test_timestamp() {
    expect_atoms(
        "2007-02-23T12:14Z 2007-02-23T12:14:33.079-08:00 2007-01-01 2007-01-01T 2007-01T 2007T",
        AtomicType::Timestamp,
        vec![
            "2007-02-23T12:14Z",
            "2007-02-23T12:14:33.079-08:00",
            "2007-01-01",
            "2007-01-01T",
            "2007-01T",
            "2007T",
        ],
    );
}

#[test]
fn test_operators() {
    let ast = parse_ok("(a+-b) (a.b;) (<= x 1) (|x| x)");
    let first = list_data(&ast[0]);
    assert_eq!(3, first.items.len());
    expect_atomic(&first.items[0], AtomicType::Symbol, 1, 2, "a");
    expect_atomic(&first.items[1], AtomicType::Symbol, 2, 4, "+-");
    expect_atomic(&first.items[2], AtomicType::Symbol, 4, 5, "b");
    let second = list_data(&ast[1]);
    assert_eq!(4, second.items.len());
    expect_atomic(&second.items[1], AtomicType::Symbol, 9, 10, ".");
    expect_atomic(&second.items[3], AtomicType::Symbol, 11, 12, ";");
    let third = list_data(&ast[2]);
    expect_atomic(&third.items[0], AtomicType::Symbol, 15, 17, "<=");
    let fourth = list_data(&ast[3]);
    assert_eq!(4, fourth.items.len());
    expect_atomic(&fourth.items[0], AtomicType::Symbol, 24, 25, "|");
    expect_atomic(&fourth.items[2], AtomicType::Symbol, 26, 27, "|");
}

#[test]
fn test_symbol() {
    expect_atoms(
        "'myVar2' myVar2 'hi ho' '\\'ahoy\\'' '' foo_baz",
        AtomicType::Symbol,
        vec!["'myVar2'", "myVar2", "'hi ho'", "'\\'ahoy\\''", "''", "foo_baz"],
    );
    let ast = parse_ok("'hi ho'");
    assert_eq!(Some("hi ho"), ast[0].stripped_symbol_value());
    assert_eq!("'hi ho'", ast[0].symbol_value().unwrap());
}

#[test]
fn test_structure() {
    let ast = parse_ok("{ foo: 1, 'b c': note::[2], \"d\": {} }");
    assert_eq!(1, ast.len());
    assert!(ast[0].is_struct());
    let members = &list_data(&ast[0]).items;
    assert_eq!(3, members.len());
    match &members[0] {
        Expr::StructMember(member) => {
            assert_eq!(ShortSpan::new(2, 8), member.span);
            assert_eq!(2, member.items.len());
            match &member.items[0] {
                Expr::StructKey(key) => {
                    assert_eq!("foo", key.value);
                    assert_eq!(ShortSpan::new(2, 5), key.span);
                }
                other => panic!("expected a key, got {:?}", other),
            }
            expect_atomic(&member.items[1], AtomicType::Integer, 7, 8, "1");
        }
        other => panic!("expected a member, got {:?}", other),
    }
    match &members[1] {
        Expr::StructMember(member) => {
            match &member.items[0] {
                Expr::StructKey(key) => assert_eq!("'b c'", key.value),
                other => panic!("expected a key, got {:?}", other),
            }
            match &member.items[1] {
                Expr::List(list) => assert_eq!(vec!["note::"], list.annotations),
                other => panic!("expected a list, got {:?}", other),
            }
        }
        other => panic!("expected a member, got {:?}", other),
    }
    match &members[2] {
        Expr::StructMember(member) => {
            match &member.items[0] {
                Expr::StructKey(key) => assert_eq!("\"d\"", key.value),
                other => panic!("expected a key, got {:?}", other),
            }
            assert!(member.items[1].is_struct());
        }
        other => panic!("expected a member, got {:?}", other),
    }

    // A struct that spans lines keeps its comments and newline runs
    let ast = parse_ok("{\n  // c\n  a: // d\n    1,\n}");
    let children = &list_data(&ast[0]).items;
    assert_eq!(5, children.len());
    assert!(children[0].is_newlines());
    assert!(children[1].is_comment_line());
    assert!(children[2].is_newlines());
    match &children[3] {
        Expr::StructMember(member) => {
            assert_eq!(4, member.items.len());
            assert!(member.items[0].is_struct_key());
            assert!(member.items[1].is_comment_line());
            assert!(member.items[2].is_newlines());
            expect_atomic(&member.items[3], AtomicType::Integer, 23, 24, "1");
        }
        other => panic!("expected a member, got {:?}", other),
    }
    assert!(children[4].is_newlines());
}
