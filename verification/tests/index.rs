use fuusak::check::unbound::{ModuleOrScript, UnboundChecker};
use fuusak::config::new_default_config;
use fuusak::file::{FusionFile, FusionFileContent};
use fuusak::index::fusion_index::{holds_path, FusionIndex};
use fuusak::index::fusion_loader::{find_text, FusionLoader, LoadStop};
use fuusak::index::module::{Module, Origin, RequireForm, RequireType};
use fuusak::index::script::Script;
use fuusak::span::ShortSpan;

fn file(name: &str, contents: &str) -> FusionFile {
    FusionFileContent::new(name.to_string(), contents.to_string())
        .parse(&new_default_config())
        .unwrap_or_else(|error| panic!("Error: {}", error.to_string()))
}

fn index() -> FusionIndex {
    FusionIndex::new(
        "/package".to_string(),
        vec!["/package/fusion/src".to_string(), "/other/modules".to_string()],
    )
}

fn load(index: &mut FusionIndex, name: &str, contents: &str) {
    let config = new_default_config();
    let module = {
        let loader = FusionLoader::new(&config, index);
        match loader.process_file(name.to_string(), file(&format!("{}.fusion", name), contents)) {
            Ok(module) => module,
            Err(stop) => panic!("{:?}", stop),
        }
    };
    index.put_module(module);
}

fn provided(module: &Module) -> Vec<(String, ShortSpan)> {
    module.provides.iter().map(|p| (p.name.clone(), p.span)).collect()
}

#[test]
fn index_finds_modules_and_scripts_by_name() {
    let mut index = index();
    assert_eq!("/package", index.current_package_path());
    assert!(index.get_module("/a").is_none());
    load(&mut index, "/a", "(define x 1) (provide x)");
    load(&mut index, "/b", "(define y 1) (provide y)");
    assert_eq!("/a", index.get_module("/a").unwrap().name);
    assert_eq!(2, index.module_iter().len());
    // A module of the same name takes the place of the one before
    load(&mut index, "/a", "(define z 1) (provide z)");
    assert_eq!(2, index.module_iter().len());
    assert_eq!("/a", index.module_iter()[0].name);
    assert_eq!("z", index.get_module("/a").unwrap().provides[0].name);

    assert!(index.get_script("s").is_none());
    index.put_script(Script::new("s".to_string(), vec![], vec![], vec![]));
    index.put_script(Script::new("s".to_string(), vec!["/a".to_string()], vec![], vec![]));
    assert_eq!(1, index.script_iter().len());
    assert_eq!(vec!["/a"], index.get_script("s").unwrap().top_level_modules);
}

#[test]
fn index_has_a_root_module() {
    let mut index = index();
    assert_eq!("/fusion/private/kernel", index.get_root_module().name);
    assert_eq!("/fusion/private/kernel", index.get_root_module().language);
    assert_eq!(1, index.module_iter().len());
    assert_eq!("empty", index.get_module("/fusion/private/kernel").unwrap().file.file_name);
}

#[test]
fn index_names_the_files_of_a_module() {
    let index = index();
    assert_eq!(
        vec!["/package/fusion/src/fusion/list.fusion", "/other/modules/fusion/list.fusion"],
        index.find_module_file("/fusion/list")
    );
    assert_eq!(
        vec!["/package/fusion/src/plain.fusion", "/other/modules/plain.fusion"],
        index.find_module_file("plain")
    );
}

#[test]
fn index_finds_the_module_path_of_a_file() {
    let index = index();
    assert_eq!(Some("/package/fusion/src"), index.find_parent_path("/package/fusion/src/a/b.fusion"));
    assert_eq!(Some("/other/modules"), index.find_parent_path("/other/modules/c.fusion"));
    assert_eq!(None, index.find_parent_path("/package/fusion/srcs/a.fusion"));
    assert!(holds_path("/a/b", "/a/b"));
    assert!(holds_path("/a/b", "/a/b/c"));
    assert!(holds_path("/", "/a"));
    assert!(!holds_path("/a/b", "/a/bc"));
    assert!(!holds_path("/a/b/c", "/a/b"));
}

#[test]
fn loader_names_modules_after_their_files() {
    let index = index();
    let config = new_default_config();
    let loader = FusionLoader::new(&config, &index);
    assert_eq!(
        "/a/b",
        loader.determine_module_name("/package/fusion/src/a/b.fusion").unwrap()
    );
    assert_eq!(
        "failed to find parent path of /elsewhere/a.fusion",
        loader.determine_module_name("/elsewhere/a.fusion").unwrap_err().to_string()
    );
    assert_eq!(
        "not the name of a source file: /other/modules/a.txt",
        loader.determine_module_name("/other/modules/a.txt").unwrap_err().to_string()
    );
    let text: Vec<char> = "abcabc".chars().collect();
    assert_eq!(Some(1), find_text(&text, &"bc".chars().collect()));
    assert_eq!(Some(0), find_text(&text, &Vec::new()));
    assert_eq!(None, find_text(&text, &"cb".chars().collect()));
    assert_eq!(None, find_text(&text, &"abcabcd".chars().collect()));
}

#[test]
fn loader_reads_what_a_module_declares() {
    let mut index = index();
    index.get_root_module();
    load(
        &mut index,
        "/base",
        "(module base \"/fusion/private/kernel\"\n  (define (one) 1)\n  (define two 2)\n  (defpub three 3)\n  (provide one))",
    );
    {
        let base = index.get_module("/base").unwrap();
        assert_eq!("/fusion/private/kernel", base.language);
        assert_eq!(
            vec![("three".to_string(), ShortSpan::new(84, 89)), ("one".to_string(), ShortSpan::new(104, 107))],
            provided(base)
        );
        assert!(base.requirements.is_empty());
    }
    load(
        &mut index,
        "/user",
        "(module user \"/base\"\n  (require \"/base\" (only_in \"/base\" one) (rename_in \"/base\" (three drei)))\n  (define mine 1)\n  (provide (all_defined_out) (rename_out (one uno))))",
    );
    let user = index.get_module("/user").unwrap();
    assert_eq!("/base", user.language);
    assert_eq!(3, user.requirements.len());
    assert!(matches!(user.requirements[0].required, RequireType::All));
    match &user.requirements[1].required {
        RequireType::Names(names) => {
            assert_eq!(1, names.len());
            assert_eq!("one", names[0].name);
        }
        other => panic!("expected names, got {:?}", other),
    }
    match &user.requirements[2].required {
        RequireType::Mapped(mapping) => {
            assert_eq!(1, mapping.len());
            assert_eq!("three", mapping[0].name);
            assert_eq!("drei", mapping[0].origin.name);
        }
        other => panic!("expected a mapping, got {:?}", other),
    }
    // `uno` comes from where `/base` provides `one`; what is defined is provided too
    assert_eq!(
        vec![("uno".to_string(), ShortSpan::new(104, 107)), ("mine".to_string(), ShortSpan::new(106, 110))],
        provided(user)
    );
    assert_eq!(Some(ShortSpan::new(104, 107)), user.requirements[0].find_origin(&index, "one"));
    assert_eq!(None, user.requirements[0].find_origin(&index, "two"));
    assert_eq!(None, user.requirements[2].find_origin(&index, "three"));
    assert!(user.requirements[2].find_origin(&index, "drei").is_some());
    let all_of_missing = RequireForm::new("/missing".to_string(), RequireType::All);
    assert_eq!(None, all_of_missing.find_origin(&index, "one"));
    let names = RequireForm::new(
        "/base".to_string(),
        RequireType::Names(vec![Origin::new("x".to_string(), ShortSpan::new(1, 2))]),
    );
    assert_eq!(Some(ShortSpan::new(1, 2)), names.find_origin(&index, "x"));
}

fn stop_of(index: &FusionIndex, contents: &str) -> LoadStop {
    let config = new_default_config();
    let loader = FusionLoader::new(&config, index);
    match loader.process_file("/m".to_string(), file("m.fusion", contents)) {
        Ok(module) => panic!("expected a stop, got {:?}", module),
        Err(stop) => stop,
    }
}

fn failure_of(index: &FusionIndex, contents: &str) -> String {
    match stop_of(index, contents) {
        LoadStop::Failed { message, .. } => message,
        other => panic!("expected a failure, got {:?}", other),
    }
}

#[test]
fn loader_stops_at_modules_that_are_not_loaded() {
    let index = index();
    match stop_of(&index, "(require \"/fusion/list\")") {
        LoadStop::Needs(name) => assert_eq!("/fusion/list", name),
        other => panic!("expected a need, got {:?}", other),
    }
    match stop_of(&index, "(module m \"/fusion\" (define x 1))") {
        LoadStop::Needs(name) => assert_eq!("/fusion", name),
        other => panic!("expected a need, got {:?}", other),
    }
    match stop_of(&index, "(require (only_in \"/a\" b))") {
        LoadStop::Needs(name) => assert_eq!("/a", name),
        other => panic!("expected a need, got {:?}", other),
    }
    // Nothing is needed of what is quoted
    let config = new_default_config();
    let loader = FusionLoader::new(&config, &index);
    assert!(loader.process_file("/m".to_string(), file("m.fusion", "(quote (require \"/a\"))")).is_ok());
    assert!(loader.load_module("/fusion/private/kernel").is_ok());
    let stop = stop_of(&index, "(require \"/a\")");
    assert_eq!(
        "cannot load module named /a: no module file found in module paths",
        stop.into_error("m.fusion", "(require \"/a\")").to_string()
    );
}

#[test]
fn loader_reports_forms_in_error() {
    let mut index = index();
    load(&mut index, "/a", "(defpub x 1)");
    assert_eq!("missing module name", failure_of(&index, "(module)"));
    assert_eq!("missing module language", failure_of(&index, "(module m)"));
    assert_eq!("missing module language", failure_of(&index, "(module m 5)"));
    assert_eq!("argument 0 to require must be string or s-expr", failure_of(&index, "(require 5)"));
    assert_eq!("argument 0 to require must be string or s-expr", failure_of(&index, "(require [])"));
    assert_eq!("invalid argument to require", failure_of(&index, "(require (other \"/a\"))"));
    assert_eq!(
        "support for `(require (prefix_in ...))` is not implemented",
        failure_of(&index, "(require (prefix_in p \"/a\"))")
    );
    assert_eq!("missing module name", failure_of(&index, "(require (only_in))"));
    assert_eq!("missing module name", failure_of(&index, "(require (only_in a))"));
    assert_eq!(
        "non-symbol found in require only_in list",
        failure_of(&index, "(require (only_in \"/a\" 5))")
    );
    assert_eq!("expected s-expression", failure_of(&index, "(require (rename_in \"/a\" x))"));
    assert_eq!("expected string", failure_of(&index, "(require (rename_in \"/a\" (x 5)))"));
    assert_eq!("invalid rename_in mapping", failure_of(&index, "(require (rename_in \"/a\" (x)))"));
    assert_eq!("unexpected s-expression", failure_of(&index, "(provide ())"));
    assert_eq!("expected all_defined_out or rename_out", failure_of(&index, "(provide (other))"));
    assert_eq!("expected all_defined_out or rename_out", failure_of(&index, "(provide (5))"));
    assert_eq!("rename_out expected s-expression", failure_of(&index, "(provide (rename_out))"));
    assert_eq!("rename_out expected s-expression", failure_of(&index, "(provide (rename_out x))"));
    assert_eq!("rename_out requires a local name", failure_of(&index, "(provide (rename_out ()))"));
    assert_eq!("rename_out requires a provided name", failure_of(&index, "(provide (rename_out (x)))"));
    assert_eq!(
        "rename_out of a name that is not known",
        failure_of(&index, "(provide (rename_out (x y)))")
    );
    let stop = stop_of(&index, "(define x 1)\n(module)");
    assert_eq!(
        " --> m.fusion:2:1\n  |\n2 | (module)\n  | ^------^\n  |\n  = missing module name",
        stop.into_error("m.fusion", "(define x 1)\n(module)").to_string()
    );
}

#[test]
fn checker_checks_modules_and_scripts_of_an_index() {
    let config = new_default_config();
    let mut index = index();
    index.get_root_module();
    load(&mut index, "/lang", "(defpub define 1) (defpub + 1) (defpub require 1) (defpub provide 1)");
    load(&mut index, "/lib", "(module lib \"/lang\" (defpub helper 1))");
    load(
        &mut index,
        "/app",
        "(module app \"/lang\"\n  (require \"/lib\")\n  (define (run x) (+ (helper x) missing)))",
    );
    let errors = UnboundChecker::new(&config, &index).check(ModuleOrScript::Module("/app".to_string()));
    let messages: Vec<String> = errors.iter().map(|e| e.to_string()).collect();
    assert_eq!(1, messages.len(), "{:#?}", messages);
    assert!(messages[0].ends_with("= Unbound identifier missing"), "{}", messages[0]);
    assert!(messages[0].starts_with(" --> /app.fusion:3:33"), "{}", messages[0]);

    // The names of a language come with those of its own language
    load(&mut index, "/dialect", "(module dialect \"/lang\" (defpub extra 1))");
    load(&mut index, "/user", "(module user \"/dialect\" (define y (+ extra other)))");
    let errors = UnboundChecker::new(&config, &index).check(ModuleOrScript::Module("/user".to_string()));
    assert_eq!(1, errors.len());
    assert!(errors[0].to_string().ends_with("= Unbound identifier other"));

    // A script starts from its modules and its global bindings; its files share what they define
    index.put_script(Script::new(
        "tests".to_string(),
        vec!["/lang".to_string()],
        vec!["global".to_string()],
        vec![file("one.fusion", "(define first 1) (+ second global)"), file("two.fusion", "(define second 2) (+ first third)")],
    ));
    let errors = UnboundChecker::new(&config, &index).check(ModuleOrScript::Script("tests".to_string()));
    let messages: Vec<String> = errors.iter().map(|e| e.to_string()).collect();
    assert_eq!(1, messages.len(), "{:#?}", messages);
    assert!(messages[0].starts_with(" --> two.fusion:1:28"), "{}", messages[0]);
    assert!(messages[0].ends_with("= Unbound identifier third"));

    let errors = UnboundChecker::new(&config, &index).check(ModuleOrScript::Module("/nowhere".to_string()));
    assert_eq!("cannot find module named /nowhere", errors[0].to_string());
    let errors = UnboundChecker::new(&config, &index).check(ModuleOrScript::Script("nothing".to_string()));
    assert_eq!("cannot find module named nothing", errors[0].to_string());
}
