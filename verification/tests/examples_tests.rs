use code_playground::examples::{
    all_examples, filter_examples, find_example, go_examples, js_examples, language_from_query,
    rust_examples, sanitize_for, ExpectedBehavior, Language,
};
use code_playground::security::sanitize_code;

#[test]
fn catalogue_holds_all_languages_in_order() {
    let all = all_examples();
    assert_eq!(all.len(), 15);
    assert_eq!(rust_examples().len(), 8);
    assert_eq!(js_examples().len(), 4);
    assert_eq!(go_examples().len(), 3);
    assert_eq!(all[0].id, "rs_01_crime_scene");
    assert_eq!(all[8].id, "js_01_event_loop");
    assert_eq!(all[14].id, "go_03_errors");
    let mut ids: Vec<&str> = all.iter().map(|e| e.id).collect();
    ids.sort();
    ids.dedup();
    assert_eq!(ids.len(), 15);
}

#[test]
fn rust_examples_carry_their_metadata() {
    let rs = rust_examples();
    assert_eq!(rs[0].editable_regions, &[(28, 33)]);
    assert!(matches!(rs[0].expected_behavior, ExpectedBehavior::RuntimeCorruption));
    assert!(matches!(rs[1].expected_behavior, ExpectedBehavior::CompileError));
    assert_eq!(rs[7].mode, "release");
    assert!(matches!(rs[7].expected_behavior, ExpectedBehavior::UndefinedBehavior));
    assert!(rs.iter().all(|e| e.language == Language::Rust));
    assert!(rs[0].code.contains("fn main()"));
    assert!(rs[0].code.starts_with("// ============"));
}

#[test]
fn listing_filters_by_language_query() {
    let all = all_examples();
    assert_eq!(filter_examples(&all, Some("go")).len(), 3);
    assert_eq!(filter_examples(&all, Some("js")).len(), 4);
    assert_eq!(filter_examples(&all, Some("javascript")).len(), 4);
    assert_eq!(filter_examples(&all, Some("rust")).len(), 8);
    assert_eq!(filter_examples(&all, Some("cobol")).len(), 15);
    assert_eq!(filter_examples(&all, None).len(), 15);
    assert_eq!(language_from_query("js"), Some(Language::JavaScript));
    assert_eq!(language_from_query("Rust"), None);
}

#[test]
fn find_by_id() {
    let all = all_examples();
    assert_eq!(find_example(&all, "rs_07_poll").unwrap().title, "Poll by Hand");
    assert!(find_example(&all, "nope").is_none());
    assert_eq!(Language::JavaScript.as_str(), "javascript");
    assert_eq!(Language::Go.edition_str(), "go");
    assert_eq!(Language::Rust.edition_str(), "2021");
}

#[test]
fn screening_by_language() {
    assert!(sanitize_for(Language::Rust, "fn main() {}").is_ok());
    assert!(sanitize_for(Language::Go, "fn main() {}").is_err());
    assert!(sanitize_for(Language::JavaScript, "console.log(1)").is_ok());
    for e in rust_examples() {
        assert_eq!(sanitize_code(e.code), Ok(()));
    }
}
