use plink::parse_csv;

#[test]
fn none_gives_no_items() {
    assert!(parse_csv(None).is_empty());
}

#[test]
fn items_are_split_trimmed_and_empties_dropped() {
    let items = parse_csv(Some("a, b ,, c "));
    assert_eq!(items, vec!["a".to_string(), "b".to_string(), "c".to_string()]);
}

#[test]
fn lone_commas_give_no_items() {
    assert!(parse_csv(Some(",, ,")).is_empty());
}

#[test]
fn single_item_passes_through() {
    assert_eq!(parse_csv(Some("tracking.example")), vec!["tracking.example".to_string()]);
}
