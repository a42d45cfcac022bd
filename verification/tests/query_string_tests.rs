use http_server::http::query_string::{QueryString, Value};

#[test]
fn from_single() {
    let path = "a=1&b=2&c&d=&e===&d=7&d=abc";
    let query_string = QueryString::from(path);
    match query_string.get("a") {
        Some(value) => {
            assert_eq!(*value, Value::Single("1"));
        }
        None => {
            assert!(false);
        }
    }

    match query_string.get("b") {
        Some(value) => {
            assert_eq!(*value, Value::Single("2"));
        }
        None => {
            assert!(false);
        }
    }

    match query_string.get("c") {
        Some(value) => {
            assert_eq!(*value, Value::Single(""));
        }
        None => {
            assert!(false);
        }
    }

    match query_string.get("This should give me None") {
        Some(_) => {
            assert!(false);
        }
        None => {
            assert!(true);
        }
    }
}

#[test]
fn from_multiple() {
    let path = "a=1&b=2&c&d=&e===&d=7&d=abc";
    let query_string = QueryString::from(path);
    match query_string.get("d") {
        Some(value) => {
            assert_eq!(*value, Value::Multiple(vec!["", "7", "abc"]));
        }
        None => {
            assert!(false);
        }
    }

    match query_string.get("This should give me None") {
        Some(_) => {
            assert!(false);
        }
        None => {
            assert!(true);
        }
    }
}

#[test]
fn value_keeps_every_equals_sign_after_the_first() {
    let query_string = QueryString::from("a=1&b=2&c&d=&e===&d=7&d=abc");
    assert_eq!(query_string.get("e"), Some(&Value::Single("==")));
    assert_eq!(query_string.get("e="), None);
    assert_eq!(query_string.get("e=="), None);

    let query_string = QueryString::from("x=a=b=c");
    assert_eq!(query_string.get("x"), Some(&Value::Single("a=b=c")));
}

#[test]
fn each_key_of_distinct_pairs_gives_its_value() {
    let query_string = QueryString::from("name=abs&sort=1&page=12&lang=en");
    assert_eq!(query_string.get("name"), Some(&Value::Single("abs")));
    assert_eq!(query_string.get("sort"), Some(&Value::Single("1")));
    assert_eq!(query_string.get("page"), Some(&Value::Single("12")));
    assert_eq!(query_string.get("lang"), Some(&Value::Single("en")));
    assert_eq!(query_string.get("nam"), None);
    assert_eq!(query_string.get("name="), None);
    assert_eq!(query_string.get(""), None);
}

#[test]
fn second_occurrence_makes_a_list_of_two() {
    let query_string = QueryString::from("k=first&other=x&k=second");
    assert_eq!(query_string.get("k"), Some(&Value::Multiple(vec!["first", "second"])));
    assert_eq!(query_string.get("other"), Some(&Value::Single("x")));
}

#[test]
fn later_occurrences_are_appended_in_order() {
    let query_string = QueryString::from("k=3&k=1&k=2&k=1&k");
    assert_eq!(query_string.get("k"), Some(&Value::Multiple(vec!["3", "1", "2", "1", ""])));
}

#[test]
fn found_and_empty_differs_from_not_found() {
    let query_string = QueryString::from("c&d=");
    assert_eq!(query_string.get("c"), Some(&Value::Single("")));
    assert_eq!(query_string.get("d"), Some(&Value::Single("")));
    assert_eq!(query_string.get("e"), None);
}

#[test]
fn empty_text_holds_the_empty_key() {
    let query_string = QueryString::from("");
    assert_eq!(query_string.get(""), Some(&Value::Single("")));
    assert_eq!(query_string.get("a"), None);
}

#[test]
fn empty_pieces_share_the_empty_key() {
    let query_string = QueryString::from("a=1&&b=2&");
    assert_eq!(query_string.get(""), Some(&Value::Multiple(vec!["", ""])));
    assert_eq!(query_string.get("a"), Some(&Value::Single("1")));
    assert_eq!(query_string.get("b"), Some(&Value::Single("2")));

    let query_string = QueryString::from("=v");
    assert_eq!(query_string.get(""), Some(&Value::Single("v")));
}

#[test]
fn keys_and_values_may_hold_any_characters() {
    let query_string = QueryString::from("na\u{ef}ve=caf\u{e9}&\u{1f600}=\u{4e2d}\u{6587}&na\u{ef}ve=x y");
    assert_eq!(
        query_string.get("na\u{ef}ve"),
        Some(&Value::Multiple(vec!["caf\u{e9}", "x y"]))
    );
    assert_eq!(query_string.get("\u{1f600}"), Some(&Value::Single("\u{4e2d}\u{6587}")));
    assert_eq!(query_string.get("naive"), None);
}

#[test]
fn keys_are_case_sensitive() {
    let query_string = QueryString::from("Key=1&key=2");
    assert_eq!(query_string.get("Key"), Some(&Value::Single("1")));
    assert_eq!(query_string.get("key"), Some(&Value::Single("2")));
    assert_eq!(query_string.get("KEY"), None);
}
