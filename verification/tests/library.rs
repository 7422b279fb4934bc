use fuusak::ast::{
    AtomicData, ClobData, ClobExpr, CountItemsBeforeNewline, CountNewlines, CountUntilPred, Expr,
    ListData, MultilineStringData, NewlinesData, NonAnnotatedStringData,
    NonAnnotatedStringListData, StructMemberData,
};
use fuusak::config::{
    contains_text, new_default_config, same_text, ConfigOverrides, FusionConfig,
};
use fuusak::error::Error;
use fuusak::file::{FusionFile, FusionFileContent};
use fuusak::format::fixup::{fixup_ast, fixup_ist};
use fuusak::format::formatter::Formatter;
use fuusak::ist::{IExpr, IntermediateSyntaxTree};
use fuusak::model::AtomicType;
use fuusak::parser::parse;
use fuusak::source::slice_text;
use fuusak::span::ShortSpan;
use fuusak::text::{char_is_whitespace, split_lines, to_chars, to_string, trimmed};

fn span() -> ShortSpan {
    ShortSpan::new(0, 0)
}

fn symbol(name: &str) -> Expr {
    Expr::Atomic(AtomicData::new(AtomicType::Symbol, span(), Vec::new(), name.to_string()))
}

fn newlines(count: u16) -> Expr {
    Expr::Newlines(NewlinesData::new(span(), count))
}

fn line_comment(text: &str) -> Expr {
    Expr::CommentLine(NonAnnotatedStringData::new(span(), text.to_string()))
}

fn list(items: Vec<Expr>) -> Expr {
    Expr::List(ListData::new(span(), Vec::new(), items))
}

fn sexpr(items: Vec<Expr>) -> Expr {
    Expr::SExpr(ListData::new(span(), Vec::new(), items))
}

fn lower(ast: Vec<Expr>) -> IntermediateSyntaxTree {
    IntermediateSyntaxTree::from_ast(&ast).unwrap_or_else(|error| panic!("{}", error.to_string()))
}

fn parse_ist(input: &str) -> IntermediateSyntaxTree {
    let ast = parse("test", input, &new_default_config())
        .unwrap_or_else(|error| panic!("{}", error.to_string()));
    lower(ast)
}

fn format_input(config: &FusionConfig, input: &str) -> String {
    fuusak::format::format(config, &parse_ist(input))
}

/// The kinds of the nodes of a tree, with the counts of the newline runs.
fn shape(items: &Vec<IExpr>) -> String {
    let mut out = String::new();
    for item in items {
        match item {
            IExpr::Atomic(data) => out.push_str(&data.value),
            IExpr::Clob(_) => out.push_str("{{}}"),
            IExpr::CommentBlock(_) => out.push_str("/**/"),
            IExpr::CommentLine(_) => out.push_str("//"),
            IExpr::List(data) => out.push_str(&format!("[{}]", shape(&data.items))),
            IExpr::MultilineString(_) => out.push_str("'''"),
            IExpr::Newlines(data) => out.push_str(&format!("<{}>", data.newline_count)),
            IExpr::SExpr(data) => out.push_str(&format!("({})", shape(&data.items))),
            IExpr::Struct(data) => out.push_str(&format!("{{{}}}", shape(&data.items))),
            IExpr::StructKey(data) => out.push_str(&format!("{}:", data.value)),
        }
        out.push(' ');
    }
    out.trim_end().to_string()
}

#[test]
fn whitespace_is_what_std_says() {
    for code in 0..=0x10FFFFu32 {
        if let Some(c) = char::from_u32(code) {
            assert_eq!(c.is_whitespace(), char_is_whitespace(c), "U+{:04X}", code);
        }
    }
}

#[test]
fn lines_are_what_std_says() {
    let cases = vec![
        "", "a", "a\n", "a\nb", "a\r\nb", "\n", "\n\n", "a\rb", "a\r", "a\r\n", "\r\n\r\n", " a \n b ",
        "a\n\r\nb\r",
    ];
    for case in cases {
        let expected: Vec<String> = case.lines().map(|line| line.to_string()).collect();
        let actual: Vec<String> = split_lines(&to_chars(case)).iter().map(|line| to_string(line)).collect();
        assert_eq!(expected, actual, "{:?}", case);
        assert_eq!(case.trim(), to_string(&trimmed(&to_chars(case))), "{:?}", case);
    }
    assert_eq!("a b", to_string(&trimmed(&to_chars("\u{2003}a b\u{a0}\t"))));
}

#[test]
fn text_between_offsets_cuts_no_character() {
    let text = "a\u{e9}b";
    assert_eq!(Some("a".to_string()), slice_text(text, 0, 1));
    assert_eq!(Some("\u{e9}".to_string()), slice_text(text, 1, 3));
    assert_eq!(Some("b".to_string()), slice_text(text, 3, 4));
    assert_eq!(Some(String::new()), slice_text(text, 4, 4));
    assert_eq!(None, slice_text(text, 1, 2));
    assert_eq!(None, slice_text(text, 2, 3));
    assert_eq!(None, slice_text(text, 3, 1));
    assert_eq!(None, slice_text(text, 0, 5));
}

#[test]
fn nodes_know_their_kind() {
    let list = list(vec![symbol("a"), newlines(2), line_comment("// c")]);
    assert!(list._is_list());
    assert!(list.is_value());
    assert!(list.is_not_comment_or_newlines());
    assert!(list.list_value().is_some());
    assert!(list.sexpr_value().is_none());
    assert!(list.struct_value().is_none());
    assert!(!list.is_symbol());
    assert!(newlines(1).is_newlines());
    assert!(!newlines(1).is_value());
    assert!(!newlines(1).is_not_comment_or_newlines());
    assert!(line_comment("// c").is_comment());
    assert!(line_comment("// c").is_comment_line());
    let block = Expr::CommentBlock(NonAnnotatedStringListData::new(span(), vec!["a".to_string()]));
    assert!(block.is_comment());
    assert!(!block.is_comment_line());
    let key = Expr::StructKey(NonAnnotatedStringData::new(ShortSpan::new(3, 4), "k".to_string()));
    assert!(key.is_struct_key());
    assert!(!key.is_value());
    assert!(key.is_not_comment_or_newlines());
    assert_eq!(ShortSpan::new(3, 4), key.span());
    let structure = Expr::Struct(ListData::new(span(), Vec::new(), Vec::new()));
    assert!(structure.is_struct());
    assert!(structure.struct_value().is_some());
    assert!(structure.into_struct_value().is_some());
    assert!(sexpr(vec![]).is_sexpr());
    assert!(sexpr(vec![]).into_struct_value().is_none());
    assert!(symbol("a").is_symbol());
    assert_eq!("a", symbol("a").symbol_value().unwrap());
    assert_eq!(Some("a b"), symbol("'a b'").stripped_symbol_value());
    assert_eq!(Some("'"), symbol("'").stripped_symbol_value());
    assert_eq!(Some(""), symbol("''").stripped_symbol_value());
    assert_eq!(None, newlines(1).stripped_symbol_value());
    let string = Expr::Atomic(AtomicData::new(AtomicType::QuotedString, span(), Vec::new(), "s".to_string()));
    assert_eq!("s", string.string_value().unwrap());
    assert!(string.symbol_value().is_none());
    assert!(symbol("a").string_value().is_none());
    let long = Expr::MultilineString(MultilineStringData::new(span(), Vec::new(), "l".to_string()));
    assert_eq!("l", long.string_value().unwrap());
}

#[test]
fn annotations_are_attached() {
    let annotated = symbol("a").attach_annotations(vec!["x::".to_string(), "y::".to_string()]);
    match &annotated {
        Expr::Atomic(data) => assert_eq!(vec!["x::", "y::"], data.annotations),
        other => panic!("{:?}", other),
    }
    let copy = annotated.clone();
    match copy {
        Expr::Atomic(data) => {
            assert_eq!(vec!["x::", "y::"], data.annotations);
            assert_eq!("a", data.value);
        }
        other => panic!("{:?}", other),
    }
    match list(vec![symbol("a")]).attach_annotations(vec!["l::".to_string()]) {
        Expr::List(data) => {
            assert_eq!(vec!["l::"], data.annotations);
            assert_eq!(1, data.items.len());
        }
        other => panic!("{:?}", other),
    }
}

#[test]
fn newlines_are_counted() {
    assert_eq!(0, symbol("a").count_newlines());
    assert_eq!(7, newlines(7).count_newlines());
    assert_eq!(1, line_comment("// c").count_newlines());
    let block = Expr::CommentBlock(NonAnnotatedStringListData::new(
        span(),
        vec!["a".to_string(), "b".to_string(), "c".to_string()],
    ));
    assert_eq!(3, block.count_newlines());
    let long = MultilineStringData::new(span(), Vec::new(), "a\r\nb\nc".to_string());
    assert_eq!(2, long.count_newlines());
    let clob = ClobData::new(
        span(),
        Vec::new(),
        vec![
            ClobExpr::Newlines(NewlinesData::new(span(), 2)),
            ClobExpr::MultilineString(MultilineStringData::new(span(), Vec::new(), "abc".to_string())),
            ClobExpr::QuotedString(AtomicData::new(AtomicType::QuotedString, span(), Vec::new(), "\n".to_string())),
        ],
    );
    // A multi-line string counts with its length, a quoted string with nothing
    assert_eq!(5, clob.count_newlines());
    assert_eq!(0, clob.clobs.count_items_before_newline());
    let items = vec![symbol("a"), newlines(2), list(vec![newlines(3), line_comment("//")]), Expr::Clob(clob)];
    assert_eq!(11, items.count_newlines());
    assert_eq!(11, sexpr(items).count_newlines());
    let data = ListData::new(span(), Vec::new(), vec![newlines(4), newlines(u16::MAX)]);
    assert_eq!(4 + 65535, data.count_newlines());
    let member = Expr::StructMember(StructMemberData::new(span(), vec![newlines(2), symbol("v")]));
    assert_eq!(2, member.count_newlines());
}

#[test]
fn items_are_counted_up_to_the_first_newline() {
    let items = vec![symbol("a"), line_comment("//"), symbol("b"), newlines(1), symbol("c")];
    assert_eq!(2, items.count_items_before_newline());
    assert_eq!(0, vec![newlines(1), symbol("a")].count_items_before_newline());
    assert_eq!(1, vec![symbol("a")].count_items_before_newline());
    assert_eq!(0, Vec::<Expr>::new().count_items_before_newline());
    assert_eq!(
        2,
        items.count_until(|e: &Expr| e.is_not_comment_or_newlines(), |e: &Expr| e.is_newlines())
    );
    assert_eq!(3, items.count_until(|e: &Expr| !e.is_newlines(), |e: &Expr| e.is_newlines()));
    assert_eq!(0, items.count_until(|e: &Expr| e.is_newlines(), |e: &Expr| e.is_symbol()));
    assert_eq!(1, items.count_until(|e: &Expr| e.is_newlines(), |_e: &Expr| false));
    let data = ListData::new(span(), Vec::new(), items);
    let kept: Vec<String> = data
        .item_iter()
        .iter()
        .map(|item| item.symbol_value().unwrap().clone())
        .collect();
    assert_eq!(vec!["a", "b", "c"], kept);
}

#[test]
fn lowering_flattens_struct_members() {
    let member = Expr::StructMember(StructMemberData::new(
        span(),
        vec![
            Expr::StructKey(NonAnnotatedStringData::new(span(), "k".to_string())),
            line_comment("// c"),
            newlines(1),
            symbol("v"),
        ],
    ));
    let structure = Expr::Struct(ListData::new(span(), Vec::new(), vec![newlines(1), member, newlines(2)]));
    let ist = lower(vec![list(vec![structure])]);
    assert_eq!("[{<1> k: // <1> v <2>}]", shape(&ist.expressions));
    let ist = parse_ist("{a: 1, // c\n b: {c: [2]}}");
    assert_eq!("{a: 1 // <1> b: {c: [2]}}", shape(&ist.expressions));
}

#[test]
fn lowering_fails_on_members_and_keys_out_of_place() {
    let key = || Expr::StructKey(NonAnnotatedStringData::new(ShortSpan::new(1, 2), "k".to_string()));
    let member = || Expr::StructMember(StructMemberData::new(ShortSpan::new(3, 4), vec![key(), symbol("v")]));
    let structure = |items| Expr::Struct(ListData::new(span(), Vec::new(), items));
    assert!(IntermediateSyntaxTree::from_ast(&vec![structure(vec![member()])]).is_ok());
    let cases: Vec<Vec<Expr>> = vec![
        vec![key()],
        vec![member()],
        vec![list(vec![symbol("a"), key()])],
        vec![sexpr(vec![member()])],
        vec![structure(vec![key()])],
        vec![structure(vec![symbol("a")])],
        vec![structure(vec![Expr::StructMember(StructMemberData::new(span(), vec![member()]))])],
    ];
    for case in cases {
        match IntermediateSyntaxTree::from_ast(&case) {
            Ok(ist) => panic!("expected an error for {:?}, got {}", case, shape(&ist.expressions)),
            Err(Error::Spanned(_, message)) => assert!(message.starts_with("unexpected"), "{}", message),
            Err(other) => panic!("{:?}", other),
        }
    }
}

#[test]
fn intermediate_nodes_know_their_kind() {
    let ist = parse_ist("(define 'a b' [1] {k: 2}) // c\n");
    let form = &ist.expressions[0];
    assert!(form.is_sexpr());
    assert!(form.is_value());
    let items = &form.list_data().items;
    assert!(items[0].is_symbol());
    assert_eq!("define", items[0].symbol_value());
    assert_eq!(Some("a b"), items[1].stripped_symbol_value());
    assert!(items[2].is_list());
    assert!(items[3].is_struct());
    assert!(items[3].list_data().items[0].is_struct_key());
    assert!(ist.expressions[1].is_comment_line());
    assert!(ist.expressions[1].is_comment());
    assert!(ist.expressions[2].is_newlines());
    assert!(!ist.expressions[2].is_not_comment_or_newlines());
    assert_eq!(ShortSpan::new(0, 25), form.span());
    assert_eq!(0, form.count_newlines());
    assert_eq!(2, ist.expressions.count_newlines());
    assert_eq!(1, ist.expressions.count_items_before_newline());
    assert_eq!(
        1,
        fuusak::ist::CountUntilPred::count_until(
            &ist.expressions,
            |e: &IExpr| e.is_sexpr(),
            |e: &IExpr| e.is_comment()
        )
    );
    let copy = form.clone();
    assert_eq!(shape(&vec![copy]), "(define 'a b' [1] {k: 2})");
}

#[test]
fn fix_up_drops_and_adds_newline_runs() {
    let fixed = |input: &str| shape(&fixup_ist(&parse_ist(input)).expressions);
    // The run at the start goes, runs between items stay, the run at the end goes
    assert_eq!("[1 <1> 2]", fixed("[\n\n\n1,\n2\n\n\n]"));
    assert_eq!("[1 <3> 2]", fixed("[1,\n\n\n2]"));
    // ... unless a line comment stands before it
    assert_eq!("[1 // <1>]", fixed("[\n1 // c\n]"));
    assert_eq!("[1 // <1>]", fixed("[\n1 // c\n\n\n]"));
    // A form that holds newline runs only is emptied
    assert_eq!("() [] {}", fixed("(\n) [\n\n] {\n}"));
    // A nested form that opens with a break gets a newline before it
    assert_eq!("(a <1> (b c))", fixed("(a (\n b c))"));
    assert_eq!("(a <2> (b c))", fixed("(a\n\n(\n b c))"));
    assert_eq!("((b c))", fixed("((\n b c))"));
    assert_eq!("(a (b <1> c))", fixed("(a (b\n c))"));
    assert_eq!("(a (// <1>))", fixed("(a (\n // c\n))"));
    // Newline runs between top-level forms stay as they are
    assert_eq!("<2> (a) <3> (b) <1>", fixed("\n\n(a)\n\n\n(b)\n"));
}

#[test]
fn fix_up_twice_is_fix_up_once() {
    let inputs = vec![
        "[\n\n\n1,\n2\n\n\n]",
        "(a (\n b c) [\n // c\n\n] {\n k: (\n v\n)\n})",
        "(\n // c\n\n\n)",
        "{ a: {\n b: 1 } }",
    ];
    for input in inputs {
        let once = fixup_ist(&parse_ist(input));
        let twice = fixup_ist(&once);
        assert_eq!(shape(&once.expressions), shape(&twice.expressions), "{:?}", input);
    }
    // Two newline runs in a row at the start of a form stand in no parsed tree; the pass
    // takes one of them at a time
    let odd = lower(vec![list(vec![newlines(1), newlines(1), symbol("a")])]);
    let once = fixup_ast(&odd.expressions);
    assert_eq!("[<1> a]", shape(&once));
    assert_eq!("[a]", shape(&fixup_ast(&once)));
}

#[test]
fn formatter_writes_nodes_after_each_other() {
    let config = new_default_config();
    let mut formatter = Formatter::new(&config);
    formatter.format(&parse_ist("(a   b)").expressions);
    formatter.format(&parse_ist("\n[1,2]  ").expressions);
    assert_eq!("(a b)\n[1, 2]\n", formatter.finish());
    assert_eq!("", Formatter::new(&config).finish());
}

#[test]
fn fixed_indent_symbols_indent_by_two() {
    let config = new_default_config();
    assert_eq!("(define (f x)\n  a)\n", format_input(&config, "(define (f x)\na)"));
    assert_eq!(
        "(define (f x) first\n  a\n  b\n  c\n  d\n  e)\n",
        format_input(&config, "(define (f x) first\na\nb\nc\nd\ne)")
    );
    // A symbol that the options do not list aligns under its first argument
    assert_eq!("(frobnicate a\n            b)\n", format_input(&config, "(frobnicate a\nb)"));
    assert_eq!(
        "(frobnicate a\n            b\n            c\n            d\n            e\n            f)\n",
        format_input(&config, "(frobnicate a\nb\nc\nd\ne\nf)")
    );
    // ... unless the line breaks right after it
    assert_eq!("(frobnicate\n  a)\n", format_input(&config, "(frobnicate\na)"));
    // A symbol listed for a smart indent aligns while the form is short
    assert_eq!("(if a\n    b\n    c)\n", format_input(&config, "(if a\nb\nc)"));
    assert_eq!("(if a\n  b\n  c\n  d\n  e)\n", format_input(&config, "(if a\nb\nc\nd\ne)"));
    let mut custom = new_default_config();
    custom.fixed_indent_symbols = vec!["frobnicate".to_string()];
    assert_eq!("(frobnicate a\n  b)\n", format_input(&custom, "(frobnicate a\nb)"));
    assert_eq!("(define (f x)\n        a)\n", format_input(&custom, "(define (f x)\na)"));
}

#[test]
fn end_to_end_scenarios() {
    let config = new_default_config();
    assert_eq!("(+ 1 2)\n", format_input(&config, "(+ 1 2)"));
    assert_eq!("{ foo: 1, bar: 2 }\n", format_input(&config, "{foo:1,bar:2}"));
    assert_eq!("/*\n * foo\n */\n", format_input(&config, "/**\n * foo\n */"));
    assert_eq!("[1,\n\n\n\n 2]\n", format_input(&config, "[\n\n\n\n1,\n\n\n\n2\n\n\n\n]"));
    assert_eq!("[1// c\n]\n", format_input(&config, "[\n\n\n\n1 // c\n]"));
}

#[test]
fn formatting_twice_is_formatting_once() {
    let config = new_default_config();
    let inputs = vec![
        "(define (f x)\n\n  // about\n  (let [(y 1)]\n (|a b| (+ a b y))))",
        "{ a: [1,2,\n3], b: {{ \"c\" }}, c: x::'''\n  text\n  ''' }",
        "/* a */\n(a /* b\n c */ d)",
        "[\n // only\n]",
    ];
    for input in inputs {
        let once = format_input(&config, input);
        assert_eq!(once, format_input(&config, &once), "{:?}", input);
    }
}

#[test]
fn options_are_merged_and_checked() {
    let config = new_default_config();
    assert!(config.newline_fix_up_mode());
    assert_eq!("fix-up", config.newline_mode);
    assert!(config.format_multiline_string_contents);
    assert!(contains_text(&config.fixed_indent_symbols, "define"));
    assert!(contains_text(&config.fixed_indent_symbols, "lambda"));
    assert!(contains_text(&config.fixed_indent_symbols, "let"));
    assert!(!contains_text(&config.fixed_indent_symbols, "if"));
    assert!(contains_text(&config.smart_indent_symbols, "if"));
    assert!(same_text("a", "a"));
    assert!(!same_text("a", "b"));

    let merged = FusionConfig::from_overrides_with_defaults(
        ConfigOverrides {
            newline_mode: Some("no-change".to_string()),
            format_multiline_string_contents: None,
            fixed_indent_symbols: Some(vec!["x".to_string()]),
            smart_indent_symbols: None,
        },
        new_default_config(),
    );
    assert_eq!("no-change", merged.newline_mode);
    assert!(!merged.newline_fix_up_mode());
    assert!(merged.format_multiline_string_contents);
    assert_eq!(vec!["x"], merged.fixed_indent_symbols);
    assert_eq!(vec!["if", "cond"], merged.smart_indent_symbols);
    assert!(merged.validated().is_ok());

    let mut odd = new_default_config();
    odd.newline_mode = "fixup".to_string();
    match odd.validated() {
        Ok(_) => panic!("expected an error"),
        Err(error) => assert_eq!(
            "Unknown newline mode in config: fixup. Should be 'no-change' or 'fix-up'",
            error.to_string()
        ),
    }
}

#[test]
fn errors_name_their_place() {
    let generic = Error::generic("plain");
    assert_eq!("plain", generic.to_string());
    assert_eq!("plain", generic.clone().resolve_spanned("f.fusion", "text").to_string());
    let spanned = Error::spanned(ShortSpan::new(5, 8), "bad form");
    assert_eq!("bad form", spanned.to_string());
    assert_eq!(
        " --> f.fusion:2:3\n  |\n2 | b cde\n  |   ^-^\n  |\n  = bad form",
        spanned.clone().resolve_spanned("f.fusion", "(a\nb cde\nf)").to_string()
    );
    // A span that does not fit the text leaves the message as it is
    assert_eq!("bad form", spanned.clone().resolve_spanned("f.fusion", "(a)").to_string());
    assert_eq!("bad form", Error::spanned(ShortSpan::new(1, 2), "bad form").resolve_spanned("f", "a\u{e9}").to_string());
}

#[test]
fn text_that_does_not_parse_is_an_error() {
    let config = new_default_config();
    let failures = vec![
        ("(a", " --> test:1:1\n  |\n1 | (a\n  | ^\n  |\n  = expected an expression"),
        ("(a)\n  )", " --> test:2:3\n  |\n2 |   )\n  |   ^\n  |\n  = expected an expression"),
        ("(a) /* open", " --> test:1:4\n  |\n1 | (a) /* open\n  |    ^\n  |\n  = expected an expression"),
        ("/* open", " --> test:1:1\n  |\n1 | /* open\n  | ^\n  |\n  = expected an expression"),
        ("[1, , 2]", " --> test:1:1\n  |\n1 | [1, , 2]\n  | ^\n  |\n  = expected an expression"),
    ];
    for (input, message) in failures {
        match parse("test", input, &config) {
            Ok(ast) => panic!("expected an error for {:?}, got {:?}", input, ast),
            Err(error) => assert_eq!(message, error.to_string(), "{:?}", input),
        }
    }
    for input in vec!["{ 5 }", "\"open", "'''open", "{{ \"a\" }", "{ a: }", "(a]", "0123", "1__2", "a::", "]"] {
        assert!(parse("test", input, &config).is_err(), "{:?}", input);
    }
    match FusionFileContent::new("f.fusion".to_string(), "(".to_string()).parse(&config) {
        Ok(file) => panic!("{:?}", file),
        Err(error) => assert_eq!(
            "Failed to parse f.fusion:  --> f.fusion:1:1\n  |\n1 | (\n  | ^\n  |\n  = expected an expression",
            error.to_string()
        ),
    }
}

#[test]
fn files_hold_their_trees() {
    let empty = FusionFile::empty_file();
    assert_eq!("empty", empty.file_name);
    assert_eq!("", empty.contents);
    assert!(empty.ast.is_empty());
    let file = FusionFileContent::new("f.fusion".to_string(), "(a) b".to_string())
        .parse(&new_default_config())
        .unwrap_or_else(|error| panic!("{}", error.to_string()));
    assert_eq!("f.fusion", file.file_name);
    assert_eq!("(a) b", file.contents);
    assert_eq!(2, file.ast.len());
}

#[test]
fn non_ascii_text_is_kept() {
    let config = new_default_config();
    assert_eq!("(f \"\u{e9}t\u{e9}\" '\u{4e16}\u{754c}')\n", format_input(&config, "(f   \"\u{e9}t\u{e9}\" '\u{4e16}\u{754c}')"));
    assert_eq!("// \u{e9}\n(a)\n", format_input(&config, "// \u{e9}\n(a)"));
    // Columns are counted in bytes
    assert_eq!("('\u{e9}' a\n      b)\n", format_input(&config, "('\u{e9}' a\nb)"));
    assert_eq!("(f \"\u{4e16}\" (g\n           h))\n", format_input(&config, "(f \"\u{4e16}\" (g\nh))"));
}

fn check_nested(items: &Vec<Expr>, lo: usize, hi: usize) {
    for item in items {
        let span = item.span();
        assert!(lo <= span.start && span.start <= span.end && span.end <= hi, "{:?} in {}..{}", item, lo, hi);
        match item {
            Expr::List(data) | Expr::SExpr(data) | Expr::Struct(data) => {
                check_nested(&data.items, span.start, span.end)
            }
            Expr::StructMember(data) => check_nested(&data.items, span.start, span.end),
            Expr::Clob(data) => {
                for part in &data.clobs {
                    let inner = match part {
                        ClobExpr::MultilineString(s) => s.span,
                        ClobExpr::QuotedString(a) => a.span,
                        ClobExpr::Newlines(n) => n.span,
                    };
                    assert!(span.start <= inner.start && inner.start <= inner.end && inner.end <= span.end);
                }
            }
            _ => {}
        }
    }
}

#[test]
fn spans_lie_within_the_spans_around_them() {
    let input = "// c\nnote::(define (f x) /* c */\n  {a: [1, '''s''', {{ \"c\" '''d'''\n }}], // d\n  'b c': x::2}\n  \"\u{e9}\")\n";
    let ast = parse("test", input, &new_default_config()).unwrap_or_else(|e| panic!("{}", e.to_string()));
    check_nested(&ast, 0, input.len());
    assert_eq!(ShortSpan::new(11, input.len() - 1), ast[2].span());
}

#[test]
fn two_newline_runs_at_the_end_take_two_passes() {
    // A comma between two line breaks leaves two newline runs in a row
    let ist = parse_ist("[1\n,\n]");
    assert_eq!("[1 <1> <1>]", shape(&ist.expressions));
    let once = fixup_ist(&ist);
    assert_eq!("[1 <1>]", shape(&once.expressions));
    assert_eq!("[1]", shape(&fixup_ist(&once).expressions));
    let config = new_default_config();
    assert_eq!("[1\n]\n", format_input(&config, "[1\n,\n]"));
    assert_eq!("[1]\n", format_input(&config, "[1\n]\n"));
}
