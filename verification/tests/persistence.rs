use skytree::host_group::HostGroup;
use skytree::negotiated::ResponderError;
use skytree::persistence::{
    like_matches, matches_filter, select_all, Deletion, DeletionAction, DeletionEvent, Selection,
};

fn group(id: i32, name: &str) -> HostGroup {
    HostGroup { id, parent: None, name: Some(name.to_string()) }
}

fn not_found() -> ResponderError {
    ResponderError { id: String::new(), message: "Record not found".to_string() }
}

#[test]
fn listing_without_filter_asks_for_all_rows() {
    assert_eq!(select_all("", None), Selection { pattern: None, window: None });
}

#[test]
fn listing_with_filter_asks_for_the_pattern_between_wildcards() {
    assert_eq!(
        select_all("abc", None),
        Selection { pattern: Some("%abc%".to_string()), window: None }
    );
    assert_eq!(
        select_all(" ", None),
        Selection { pattern: Some("% %".to_string()), window: None }
    );
}

#[test]
fn listing_applies_bounds_only_when_given() {
    assert_eq!(
        select_all("", Some((10, 20))),
        Selection { pattern: None, window: Some((10, 20)) }
    );
    assert_eq!(
        select_all("web", Some((5, 0))),
        Selection { pattern: Some("%web%".to_string()), window: Some((5, 0)) }
    );
}

#[test]
fn empty_filter_selects_every_row() {
    for value in ["", "a", "web servers", "ÄÖ"] {
        assert!(matches_filter(value, ""));
    }
}

#[test]
fn filter_selects_rows_that_hold_it_case_aside() {
    let rows = ["abc", "xxABCxx", "aBc", "ab", "acb", "", "a b c", "zabC"];
    let selected: Vec<&str> = rows.iter().copied().filter(|row| matches_filter(row, "abc")).collect();
    assert_eq!(selected, vec!["abc", "xxABCxx", "aBc", "zabC"]);
    let selected: Vec<&str> = rows.iter().copied().filter(|row| matches_filter(row, "ABC")).collect();
    assert_eq!(selected, vec!["abc", "xxABCxx", "aBc", "zabC"]);
}

#[test]
fn filter_is_matched_at_every_position() {
    assert!(matches_filter("web-01", "web"));
    assert!(matches_filter("old-web", "web"));
    assert!(matches_filter("a-web-b", "web"));
    assert!(!matches_filter("we", "web"));
    assert!(!matches_filter("w-e-b", "web"));
    assert!(matches_filter("aab", "ab"));
}

#[test]
fn folding_touches_the_basic_alphabet_only() {
    assert!(matches_filter("Zone[1]", "zone[1]"));
    assert!(!matches_filter("Zone{1}", "zone[1]"));
    assert!(!matches_filter("a@b", "a`b"));
    assert!(!matches_filter("ärger", "Ärger"));
    assert!(matches_filter("Ärger", "ärger".trim_start_matches('ä')));
}

fn like(value: &str, pattern: &str) -> bool {
    like_matches(&value.chars().collect(), &pattern.chars().collect())
}

#[test]
fn pattern_wildcards_stand_for_characters() {
    assert!(like("", ""));
    assert!(!like("a", ""));
    assert!(like("", "%"));
    assert!(like("anything", "%"));
    assert!(like("anything", "%%"));
    assert!(!like("", "_"));
    assert!(like("a", "_"));
    assert!(!like("ab", "_"));
    assert!(like("abc", "a_c"));
    assert!(like("aBc", "A_C"));
    assert!(!like("ac", "a_c"));
    assert!(!like("abbc", "a_c"));
    assert!(like("abbc", "a%c"));
    assert!(like("ac", "a%c"));
    assert!(!like("acd", "a%c"));
    assert!(like("web-01.example", "web%.example"));
    assert!(like("xaxbxc", "%a%b%c"));
    assert!(!like("xcxbxa", "%a%b%c"));
    assert!(like("aaaaaaaaaaaaaaaaaaaaaaaaaaaaaaaaaaaaaaaab", "%a%a%a%a%a%a%a%a%a%a%b"));
    assert!(!like("aaaaaaaaaaaaaaaaaaaaaaaaaaaaaaaaaaaaaaaaa", "%a%a%a%a%a%a%a%a%a%a%b"));
}

#[test]
fn pattern_escape_makes_a_character_stand_for_itself() {
    assert!(like("a_c", "a\\_c"));
    assert!(!like("abc", "a\\_c"));
    assert!(like("50%", "50\\%"));
    assert!(!like("50x", "50\\%"));
    assert!(like("a\\b", "a\\\\b"));
    assert!(!like("ab", "a\\\\b"));
    assert!(like("A", "\\a"));
    assert!(!like("a", "a\\"));
    assert!(!like("", "\\"));
    assert!(like("x_y", "%\\_%"));
    assert!(!like("xy", "%\\_%"));
}

#[test]
fn filter_is_escaped_in_its_pattern() {
    let pattern = |filter: &str| select_all(filter, None).pattern;
    assert_eq!(pattern("a_c"), Some("%a\\_c%".to_string()));
    assert_eq!(pattern("50%"), Some("%50\\%%".to_string()));
    assert_eq!(pattern("a\\b"), Some("%a\\\\b%".to_string()));
    assert_eq!(pattern("%_\\"), Some("%\\%\\_\\\\%".to_string()));
    assert_eq!(pattern("plain text"), Some("%plain text%".to_string()));
    for filter in ["a_c", "50%", "a\\b", "x", "%%", "_\\_"] {
        let expected = format!(
            "%{}%",
            filter.replace('\\', "\\\\").replace('%', "\\%").replace('_', "\\_")
        );
        assert_eq!(pattern(filter), Some(expected));
    }
}

#[test]
fn filter_with_wildcard_characters_is_matched_as_text() {
    let rows = ["abc", "a_c", "a%c"];
    let selected = |filter: &str| -> Vec<&str> {
        rows.iter().copied().filter(|row| matches_filter(row, filter)).collect()
    };
    assert_eq!(selected("a_c"), vec!["a_c"]);
    assert_eq!(selected("a%c"), vec!["a%c"]);
    assert_eq!(selected("A_C"), vec!["a_c"]);
    assert_eq!(selected("%"), vec!["a%c"]);
    assert_eq!(selected("_"), vec!["a_c"]);
    assert_eq!(selected("a"), vec!["abc", "a_c", "a%c"]);
    assert_eq!(selected(""), vec!["abc", "a_c", "a%c"]);
    assert!(!matches_filter("abc", "%"));
    assert!(!matches_filter("", "_"));
    assert!(matches_filter("back\\slash", "K\\S"));
    assert!(!matches_filter("backslash", "k\\s"));
}

#[test]
fn filter_selects_by_containment() {
    let values = ["", "a", "abc", "xxABCxx", "a_c", "50%", "web-01", "Web", "bew", "a\\b", "%_"];
    let filters = ["a", "abc", "web", "b", "-0", "BC", "x", "_", "%", "a_c", "0%", "\\", "%_", "a\\B"];
    for value in values {
        for filter in filters {
            assert_eq!(
                matches_filter(value, filter),
                value.to_ascii_lowercase().contains(&filter.to_ascii_lowercase())
            );
        }
    }
}

#[test]
fn deletion_fetches_then_removes_then_returns_the_fetched_row() {
    let (deletion, action) = Deletion::<HostGroup>::start(7);
    assert_eq!(action, DeletionAction::Fetch(7));
    let (deletion, action) = deletion.step(DeletionEvent::Fetched(Ok(group(7, "web")))).unwrap();
    assert_eq!(action, DeletionAction::Remove(7));
    let (deletion, action) = deletion.step(DeletionEvent::Removed(Ok(1))).unwrap();
    assert_eq!(action, DeletionAction::Return(Ok(group(7, "web"))));
    assert_eq!(deletion, Deletion::Finished);
    assert_eq!(deletion.step(DeletionEvent::Removed(Ok(1))), None);
}

#[test]
fn deletion_whose_fetch_fails_removes_nothing() {
    let (deletion, _) = Deletion::<HostGroup>::start(7);
    let (deletion, action) = deletion.step(DeletionEvent::Fetched(Err(not_found()))).unwrap();
    assert_eq!(action, DeletionAction::Return(Err(not_found())));
    assert_eq!(deletion, Deletion::Finished);
    assert_eq!(deletion.step(DeletionEvent::Removed(Ok(1))), None);
}

#[test]
fn deletion_surfaces_a_failing_remove() {
    let (deletion, _) = Deletion::<HostGroup>::start(7);
    let (deletion, _) = deletion.step(DeletionEvent::Fetched(Ok(group(7, "web")))).unwrap();
    let failure = ResponderError { id: String::new(), message: "locked".to_string() };
    let (_, action) = deletion
        .step(DeletionEvent::Removed(Err(ResponderError {
            id: String::new(),
            message: "locked".to_string(),
        })))
        .unwrap();
    assert_eq!(action, DeletionAction::Return(Err(failure)));
}

#[test]
fn deletion_takes_only_the_answer_it_waits_on() {
    let (deletion, _) = Deletion::<HostGroup>::start(7);
    assert_eq!(deletion.step(DeletionEvent::Removed(Ok(1))), None);
    let (deletion, _) = Deletion::<HostGroup>::start(7);
    let (deletion, _) = deletion.step(DeletionEvent::Fetched(Ok(group(7, "web")))).unwrap();
    assert_eq!(deletion.step(DeletionEvent::Fetched(Ok(group(7, "web")))), None);
}
