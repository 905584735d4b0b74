use arangodb_types::model::collect_items;
use arangodb_types::model::import_items;
use arangodb_types::model::process_model;
use arangodb_types::model::ImportSet;
use arangodb_types::model::ModelAction;
use arangodb_types::model::ModelOptions;
use arangodb_types::model::ModelRun;
use quote::ToTokens;

fn options(build_models: &[&str], no_imports: bool) -> ModelOptions {
    ModelOptions {
        build_models: build_models.iter().map(|name| name.to_string()).collect(),
        no_imports,
    }
}

/// A model of which nothing is built.
fn started<T>(options: ModelOptions) -> ModelRun<T> {
    let (run, action) = process_model::<T, ()>(options);
    assert!(matches!(action, ModelAction::BuildDb));
    run
}

fn texts(items: &Vec<syn::ItemUse>) -> Vec<String> {
    items.iter().map(|item| item.to_token_stream().to_string()).collect()
}

#[test]
fn models_are_built_in_order() {
    let mut run: ModelRun<&str> = started(options(&["User", "Admin"], false));
    assert!(run.imports.insert("serde::Serialize".to_string()));
    let action = run.on_built::<()>(Ok("db"));
    assert!(matches!(action, ModelAction::BuildApi(name) if name == "User"));
    assert!(run.imports.insert("std::sync::Arc".to_string()));
    assert!(!run.imports.insert("serde::Serialize".to_string()));
    let action = run.on_built::<()>(Ok("user"));
    assert!(matches!(action, ModelAction::BuildApi(name) if name == "Admin"));
    assert!(matches!(run.on_built::<()>(Ok("admin")), ModelAction::Assemble));
    let tokens = run.assemble();
    assert_eq!(tokens.db, "db");
    assert_eq!(tokens.models, vec!["user", "admin"]);
    assert_eq!(texts(&tokens.imports), vec!["use serde :: Serialize ;", "use std :: sync :: Arc ;"]);
}

#[test]
fn model_without_api_is_assembled_after_the_database_model() {
    let mut run: ModelRun<u8> = started(options(&[], false));
    assert!(matches!(run.on_built::<()>(Ok(1)), ModelAction::Assemble));
    let tokens = run.assemble();
    assert_eq!(tokens.db, 1);
    assert!(tokens.models.is_empty());
    assert!(tokens.imports.is_empty());
}

#[test]
fn imports_can_be_left_out() {
    let mut run: ModelRun<u8> = started(options(&[], true));
    run.imports.insert("serde::Serialize".to_string());
    run.imports.insert("not a path".to_string());
    assert!(matches!(run.on_built::<()>(Ok(1)), ModelAction::Assemble));
    assert!(run.assemble().imports.is_empty());
}

#[test]
fn first_error_ends_the_work() {
    let mut run: ModelRun<u8> = started(options(&["User"], false));
    assert!(matches!(run.on_built(Err("db")), ModelAction::Fail("db")));
    let mut run: ModelRun<u8> = started(options(&["User"], false));
    assert!(matches!(run.on_built::<&str>(Ok(1)), ModelAction::BuildApi(_)));
    assert!(matches!(run.on_built(Err("user")), ModelAction::Fail("user")));
}

#[test]
fn import_that_is_no_path_is_an_error() {
    let mut run: ModelRun<u8> = started(options(&[], false));
    run.imports.insert("serde::Serialize".to_string());
    run.imports.insert("not a path".to_string());
    assert!(matches!(run.on_built::<()>(Ok(1)), ModelAction::Assemble));
    assert!(run.try_assemble().is_err());
}

#[test]
fn use_items_are_parsed() {
    let paths = vec!["a::{b, c as d}".to_string(), "::e::*".to_string()];
    let expected: Vec<syn::ItemUse> = vec![
        syn::parse_str("use a::{b, c as d};").unwrap(),
        syn::parse_str("use ::e::*;").unwrap(),
    ];
    let items = import_items(&paths).unwrap();
    assert!(items == expected);
    assert!(import_items(&vec![]).unwrap().is_empty());
    assert!(import_items(&vec!["a; use b".to_string()]).is_err());
}

#[test]
fn import_set_keeps_first_insertions() {
    let mut imports = ImportSet::new();
    assert!(imports.insert("b".to_string()));
    assert!(imports.insert("a".to_string()));
    assert!(!imports.insert("b".to_string()));
    assert!(imports.contains(&"a".to_string()));
    assert!(!imports.contains(&"c".to_string()));
    assert_eq!(imports.paths(), &vec!["b".to_string(), "a".to_string()]);
}

#[test]
fn imports_that_parse_are_assembled() {
    let mut run: ModelRun<u8> = started(options(&["User"], false));
    for path in ["a::B", "c::D", "a::B", "a::B"] {
        run.imports.insert(path.to_string());
    }
    assert!(matches!(run.on_built::<()>(Ok(1)), ModelAction::BuildApi(_)));
    assert!(matches!(run.on_built::<()>(Ok(2)), ModelAction::Assemble));
    let tokens = run.try_assemble().unwrap();
    assert_eq!(texts(&tokens.imports), vec!["use a :: B ;", "use c :: D ;"]);
    assert_eq!((tokens.db, tokens.models), (1, vec![2]));
}

#[test]
fn first_error_of_some_results_is_kept() {
    assert_eq!(collect_items::<u8, &str>(vec![Ok(1), Ok(2)]), Ok(vec![1, 2]));
    assert_eq!(collect_items(vec![Ok(1), Err("a"), Ok(2), Err("b")]), Err("a"));
    assert_eq!(collect_items::<u8, &str>(vec![]), Ok(vec![]));
}

#[test]
fn order_of_requests_changes_only_the_order_of_imports() {
    let build = |paths: &[&str]| {
        let mut run: ModelRun<u8> = started(options(&["User"], false));
        for path in paths {
            run.imports.insert(path.to_string());
        }
        run.on_built::<()>(Ok(1));
        run.on_built::<()>(Ok(2));
        run.assemble()
    };
    let a = build(&["a::B", "c::D", "a::B", "e::F"]);
    let b = build(&["e::F", "a::B", "c::D"]);
    assert_eq!((a.db, a.models), (b.db, b.models));
    let (mut a_imports, mut b_imports) = (texts(&a.imports), texts(&b.imports));
    assert_ne!(a_imports, b_imports);
    a_imports.sort();
    b_imports.sort();
    assert_eq!(a_imports, b_imports);
}
