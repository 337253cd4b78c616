use sub_ui::problem::{settle_file, FileOutcome, Problem, LAYOUT_PARSE, LAYOUT_UNREADABLE};

#[test]
fn a_missing_file_is_the_default_and_no_problem() {
    let loaded = settle_file::<u8>(LAYOUT_UNREADABLE, "/cfg/layout.json", FileOutcome::Missing);
    assert_eq!(loaded.value, None);
    assert!(!loaded.read);
    assert!(loaded.problems.is_empty());
}

#[test]
fn an_unreadable_or_refused_file_is_the_default_and_one_problem() {
    let loaded = settle_file::<u8>(LAYOUT_UNREADABLE, "/cfg/layout.json", FileOutcome::Unreadable("is a directory".to_owned()));
    assert_eq!(loaded.value, None);
    assert!(loaded.read);
    assert_eq!(loaded.problems.len(), 1);
    assert_eq!(loaded.problems[0].code, "ui.layout_unreadable");
    assert_eq!(loaded.problems[0].message, "/cfg/layout.json could not be read: is a directory");
    assert_eq!(loaded.problems[0].details, vec![("path".to_owned(), "/cfg/layout.json".to_owned())]);

    let refused = Problem::new(LAYOUT_PARSE, "the layout file is malformed".to_owned()).with_detail("line", "3");
    let loaded = settle_file::<u8>(LAYOUT_UNREADABLE, "/cfg/layout.json", FileOutcome::Refused(refused));
    assert_eq!(loaded.value, None);
    assert!(loaded.read);
    assert_eq!(loaded.problems[0].code, "ui.layout_parse");
    assert_eq!(
        loaded.problems[0].details,
        vec![("line".to_owned(), "3".to_owned()), ("path".to_owned(), "/cfg/layout.json".to_owned())]
    );
}

#[test]
fn a_parsed_file_gives_its_value() {
    let loaded = settle_file(LAYOUT_UNREADABLE, "/cfg/layout.json", FileOutcome::Parsed(7u8));
    assert_eq!(loaded.value, Some(7));
    assert!(loaded.read);
    assert!(loaded.problems.is_empty());
}
