use std::collections::HashMap;

use envy_store::cursor::PageCursor;
use envy_store::resolve::{collect_script, prefix_strip_len, resolve_pages, FetchOutcome};
use envy_store::transform::flatten;
use envy_store::{Error, FlatConfigMap, Page, Parameter};

fn param(name: &str, value: &str) -> Parameter {
    Parameter {
        name: Some(name.to_string()),
        value: Some(value.to_string()),
    }
}

fn page(params: Vec<Parameter>, next_token: Option<&str>) -> Page {
    Page {
        parameters: Some(params),
        next_token: next_token.map(|t| t.to_string()),
    }
}

fn store_error() -> envy_store::error::StoreError {
    rusoto_core::RusotoError::Service(rusoto_ssm::GetParametersByPathError::InvalidNextToken(
        "bad token".to_string(),
    ))
}

fn map_pairs(m: FlatConfigMap) -> HashMap<String, String> {
    m.into_pairs().into_iter().collect()
}

#[test]
fn deserializes_with_expected_parameters() {
    let parameters = vec![param("/test/foo", "bar")];
    let mut expected = HashMap::new();
    expected.insert("foo".to_string(), "bar".to_string());
    let flat = flatten(6, parameters);
    assert_eq!(
        Ok(expected),
        envy::from_iter::<_, HashMap<String, String>>(flat.into_pairs())
    );
}

#[test]
fn resolves_scripted_pages() {
    let script: Vec<FetchOutcome> = vec![Ok(page(vec![param("/test/foo", "bar")], None))];
    let mut expected = HashMap::new();
    expected.insert("foo".to_string(), "bar".to_string());
    let resolved = resolve_pages("/test", script).unwrap();
    assert_eq!(expected, map_pairs(resolved));
}

#[test]
fn pagination_fetches_every_chained_page() {
    let script: Vec<FetchOutcome> = vec![
        Ok(page(vec![param("/app/a", "1")], Some("t1"))),
        Ok(page(vec![param("/app/b", "2")], Some("t2"))),
        Ok(page(vec![param("/app/c", "3")], None)),
    ];
    let collected = collect_script(script).unwrap();
    let names: Vec<String> = collected.into_iter().map(|p| p.name.unwrap()).collect();
    assert_eq!(vec!["/app/a", "/app/b", "/app/c"], names);
}

#[test]
fn pagination_stops_at_the_first_ending_page() {
    let script: Vec<FetchOutcome> = vec![
        Ok(page(vec![param("/app/a", "1")], None)),
        Ok(page(vec![param("/app/b", "2")], None)),
    ];
    let collected = collect_script(script).unwrap();
    assert_eq!(1, collected.len());
    assert_eq!(Some("/app/a".to_string()), collected[0].name.clone());
}

#[test]
fn empty_cursor_behaves_like_an_absent_cursor() {
    let trailing = vec![param("/app/b", "2")];
    let with_empty: Vec<FetchOutcome> = vec![
        Ok(page(vec![param("/app/a", "1")], Some(""))),
        Ok(page(trailing.clone(), None)),
    ];
    let with_absent: Vec<FetchOutcome> = vec![
        Ok(page(vec![param("/app/a", "1")], None)),
        Ok(page(trailing, None)),
    ];
    let from_empty: Vec<Option<String>> = collect_script(with_empty)
        .unwrap()
        .into_iter()
        .map(|p| p.name)
        .collect();
    let from_absent: Vec<Option<String>> = collect_script(with_absent)
        .unwrap()
        .into_iter()
        .map(|p| p.name)
        .collect();
    assert_eq!(from_empty, from_absent);
    assert_eq!(vec![Some("/app/a".to_string())], from_empty);
}

#[test]
fn cursor_transitions_follow_the_response_token() {
    assert!(matches!(
        PageCursor::after_response(Some("t".to_string())),
        PageCursor::Continue(t) if t == "t"
    ));
    assert!(matches!(
        PageCursor::after_response(Some(String::new())),
        PageCursor::Done
    ));
    assert!(matches!(PageCursor::after_response(None), PageCursor::Done));
    assert_eq!(Some(None), PageCursor::Start.request_token());
    assert_eq!(
        Some(Some("t".to_string())),
        PageCursor::Continue("t".to_string()).request_token()
    );
    assert_eq!(None, PageCursor::Done.request_token());
}

#[test]
fn strips_the_prefix_and_its_separator() {
    assert_eq!(6, prefix_strip_len("/demo"));
    let flat = flatten(6, vec![param("/demo/foo", "bar")]);
    assert_eq!(1, flat.len());
    assert_eq!(Some(&"bar".to_string()), flat.get(&"foo".to_string()));
}

#[test]
fn drops_a_parameter_missing_its_value() {
    let parameters = vec![Parameter {
        name: Some("/demo/foo".to_string()),
        value: None,
    }];
    let flat = flatten(6, parameters);
    assert_eq!(0, flat.len());
    assert_eq!(None, flat.get(&"foo".to_string()));
}

#[test]
fn drops_a_parameter_missing_its_name() {
    let parameters = vec![Parameter {
        name: None,
        value: Some("bar".to_string()),
    }];
    let flat = flatten(6, parameters);
    assert_eq!(0, flat.len());
}

#[test]
fn last_write_wins_on_duplicate_keys() {
    let parameters = vec![param("/demo/foo", "bar"), param("/demo/foo", "baz")];
    let flat = flatten(6, parameters);
    assert_eq!(1, flat.len());
    assert_eq!(Some(&"baz".to_string()), flat.get(&"foo".to_string()));
}

#[test]
fn a_failing_fetch_short_circuits_resolution() {
    let script: Vec<FetchOutcome> = vec![
        Ok(page(vec![param("/demo/foo", "bar")], Some("t1"))),
        Err(store_error()),
        Ok(page(vec![param("/demo/zar", "42")], None)),
    ];
    let resolved = resolve_pages("/demo", script);
    assert!(matches!(resolved, Err(Error::Store(_))));
}

#[test]
fn resolves_the_demo_hierarchy_end_to_end() {
    let script: Vec<FetchOutcome> = vec![
        Ok(page(
            vec![param("/demo/foo", "bar"), param("/demo/bar", "baz,boom,zoom")],
            Some("t1"),
        )),
        Ok(page(vec![param("/demo/zar", "42")], None)),
    ];
    let flat = resolve_pages("/demo", script).unwrap();
    assert_eq!(3, flat.len());
    assert_eq!(Some(&"bar".to_string()), flat.get(&"foo".to_string()));
    assert_eq!(
        Some(&"baz,boom,zoom".to_string()),
        flat.get(&"bar".to_string())
    );
    assert_eq!(Some(&"42".to_string()), flat.get(&"zar".to_string()));
    let mut expected = HashMap::new();
    expected.insert("foo".to_string(), "bar".to_string());
    expected.insert("bar".to_string(), "baz,boom,zoom".to_string());
    expected.insert("zar".to_string(), "42".to_string());
    assert_eq!(expected, map_pairs(flat));
}

#[test]
fn wraps_a_store_error() {
    let err = Error::from(store_error());
    assert!(matches!(err, Error::Store(_)));
}

#[test]
fn wraps_a_deserialization_error() {
    let err = Error::from(envy::Error::MissingValue("foo"));
    assert!(matches!(err, Error::Envy(_)));
}

#[test]
fn surfaces_the_engine_error_for_a_map_that_does_not_fit() {
    let flat = flatten(6, vec![param("/demo/foo", "bar")]);
    let engine: Result<HashMap<String, u32>, envy::Error> =
        envy::from_iter(flat.into_pairs());
    let unified = engine.map_err(Error::from);
    assert!(matches!(unified, Err(Error::Envy(_))));
}
