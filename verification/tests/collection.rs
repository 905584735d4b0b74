use arangodb_types::aql::AqlBuilder;
use arangodb_types::aql::AqlLimit;
use arangodb_types::aql::AqlReturn;
use arangodb_types::aql::AqlUpdate;
use arangodb_types::collection::is_found;
use arangodb_types::collection::take_one;
use arangodb_types::collection::DBCollection;
use arangodb_types::json::key_json;
use arangodb_types::update::Document;

fn users() -> DBCollection {
    DBCollection::new("users")
}

fn strings(items: &[&str]) -> Vec<String> {
    items.iter().map(|item| item.to_string()).collect()
}

fn document(key: &str, json: &str) -> Document {
    Document { key: Some(key.to_string()), json: json.to_string() }
}

#[test]
fn collection_keeps_its_name() {
    assert_eq!(users().name(), "users");
}

#[test]
fn get_all_returns_every_document() {
    assert_eq!(users().get_all(None).build_query(), "FOR i IN users RETURN i");
}

#[test]
fn get_all_returns_named_fields() {
    let fields = strings(&["name", "age"]);
    assert_eq!(
        users().get_all(Some(&fields)).build_query(),
        "FOR i IN users RETURN {name: i.name, age: i.age}"
    );
    assert_eq!(users().get_all(Some(&vec![])).build_query(), "FOR i IN users RETURN {}");
}

#[test]
fn get_many_by_filters_and_limits() {
    assert_eq!(
        users().get_many_by("age", "30", Some(120), None).build_query(),
        "FOR i IN users FILTER i.age == 30 LIMIT 120 RETURN i"
    );
    assert_eq!(
        users().get_many_by("address.city", "\"Oslo\"", None, Some(&strings(&["name"]))).build_query(),
        "FOR i IN users FILTER i.address.city == \"Oslo\" RETURN {name: i.name}"
    );
}

#[test]
fn get_many_by_keeps_the_bounds_of_a_limit() {
    assert_eq!(
        users().get_many_by("a", "1", Some(0), None).build_query(),
        "FOR i IN users FILTER i.a == 1 LIMIT 0 RETURN i"
    );
    assert_eq!(
        users().get_many_by("a", "1", Some(u64::MAX), None).build_query(),
        "FOR i IN users FILTER i.a == 1 LIMIT 18446744073709551615 RETURN i"
    );
}

#[test]
fn get_one_by_asks_for_one_document() {
    assert_eq!(
        users().get_one_by("name", "null", None).build_query(),
        "FOR i IN users FILTER i.name == null LIMIT 1 RETURN i"
    );
    assert_eq!(
        users().exists_by("name", "null").build_query(),
        users().get_one_by("name", "null", None).build_query()
    );
}

#[test]
fn get_one_by_key_compares_the_key() {
    assert_eq!(
        users().get_one_by_key("a7", None).build_query(),
        "FOR i IN users FILTER i._key == \"a7\" LIMIT 1 RETURN i"
    );
    assert_eq!(
        users().exists_by_key("a7").build_query(),
        users().get_one_by_key("a7", None).build_query()
    );
}

#[test]
fn keys_stay_inside_their_literal() {
    assert_eq!(
        users().get_one_by_key("x\" || true", None).build_query(),
        "FOR i IN users FILTER i._key == \"x\\\" || true\" LIMIT 1 RETURN i"
    );
    assert_ne!(
        users().get_one_by_key("\\\"", None).build_query(),
        users().get_one_by_key("\"", None).build_query()
    );
}

#[test]
fn get_many_by_key_looks_up_each_key() {
    assert_eq!(
        users().get_many_by_key(&strings(&["a", "b"]), None).build_query(),
        "FOR i IN [\"a\", \"b\"] LET o = DOCUMENT(users, i) RETURN o"
    );
    assert_eq!(
        users().get_many_by_key(&vec![], Some(&strings(&["name"]))).build_query(),
        "FOR i IN [] LET o = DOCUMENT(users, i) RETURN {name: o.name}"
    );
}

#[test]
fn flattened_list_filters_missing_documents() {
    assert_eq!(
        users().get_many_by_key_flattened(&strings(&["a"]), None).build_query(),
        "FOR i IN [\"a\"] LET o = DOCUMENT(users, i) FILTER o != null RETURN o"
    );
    assert_eq!(
        users().get_many_by_key_flattened(&strings(&["a"]), Some(&strings(&["n"]))).build_query(),
        "FOR i IN [\"a\"] LET o = DOCUMENT(users, i) FILTER o != null RETURN {n: o.n}"
    );
}

#[test]
fn insert_many_inserts_the_list() {
    let documents = [document("a", "{\"_key\":\"a\"}"), Document { key: None, json: "{}".to_string() }];
    assert_eq!(
        users().insert_many(&documents).build_query(),
        "FOR i IN [{\"_key\":\"a\"}, {}] INSERT i INTO users"
    );
}

#[test]
fn update_list_resends_what_was_not_taken() {
    let documents = [
        document("a", "{\"_key\":\"a\"}"),
        document("b", "{\"_key\":\"b\"}"),
        document("c", "{\"_key\":\"c\"}"),
        document("b", "{\"_key\":\"b\",\"n\":2}"),
    ];
    let (mut run, mut aql) = users().update_list_with_retries(&documents);
    let tail = "UPDATE i WITH i IN users OPTIONS { ignoreErrors: true } RETURN NEW._key";
    assert_eq!(
        aql.build_query(),
        format!(
            "FOR i IN [{{\"_key\":\"a\"}}, {{\"_key\":\"b\"}}, {{\"_key\":\"c\"}}, \
             {{\"_key\":\"b\",\"n\":2}}] {}",
            tail
        )
    );
    assert!(!run.on_results(&strings(&["c", "other"]), &mut aql));
    assert_eq!(
        aql.build_query(),
        format!("FOR i IN [{{\"_key\":\"a\"}}, {{\"_key\":\"b\"}}, {{\"_key\":\"b\",\"n\":2}}] {}", tail)
    );
    assert!(!run.on_results(&vec![], &mut aql));
    assert!(!run.on_results(&strings(&["a", "a"]), &mut aql));
    assert_eq!(
        aql.build_query(),
        format!("FOR i IN [{{\"_key\":\"b\"}}, {{\"_key\":\"b\",\"n\":2}}] {}", tail)
    );
    let last = aql.build_query();
    assert!(run.on_results(&strings(&["b"]), &mut aql));
    assert_eq!(aql.build_query(), last);
}

#[test]
fn update_of_no_documents_is_done_at_once() {
    let (mut run, mut aql) = users().update_list_with_retries(&[]);
    assert_eq!(
        aql.build_query(),
        "FOR i IN [] UPDATE i WITH i IN users OPTIONS { ignoreErrors: true } RETURN NEW._key"
    );
    assert!(run.on_results(&vec![], &mut aql));
}

#[test]
fn one_document_is_the_last_result() {
    assert_eq!(take_one(vec![1, 2, 3]), Some(3));
    assert_eq!(take_one(Vec::<u8>::new()), None);
    assert!(is_found(vec![1]));
    assert!(!is_found(Vec::<u8>::new()));
}

#[test]
fn key_json_escapes_as_json_does() {
    assert_eq!(key_json("plain \u{e9}\u{1f600}/\u{7f}"), "\"plain \u{e9}\u{1f600}/\u{7f}\"");
    assert_eq!(key_json("\"\\\u{8}\t\n\u{c}\r"), "\"\\\"\\\\\\b\\t\\n\\f\\r\"");
    assert_eq!(key_json("\u{0}\u{b}\u{1f}"), "\"\\u0000\\u000b\\u001f\"");
    assert_eq!(key_json(""), "\"\"");
}

#[test]
fn steps_without_options_are_written_plainly() {
    let mut aql = AqlBuilder::new_for_in_collection("u", "users");
    aql.limit_step(AqlLimit { offset: Some(10), count: 5 });
    aql.update_step(AqlUpdate::new_document("users", "{a: 1}".to_string()));
    aql.return_step(AqlReturn::new_expression("OLD".to_string()));
    assert_eq!(
        aql.build_query(),
        "FOR u IN users LIMIT 10, 5 UPDATE i WITH {a: 1} IN users RETURN OLD"
    );
}
