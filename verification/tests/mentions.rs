use opinions::mentions::parse_mentions;

#[test]
fn parses_normalizes_deduplicates_and_bounds() {
    assert_eq!(
        parse_mentions("@Alice hi @bob_2 and @ALICE then @charlie", 3),
        vec![
            "alice".to_string(),
            "bob_2".to_string(),
            "charlie".to_string()
        ]
    );
    assert_eq!(parse_mentions("@alice @bob @charlie", 2).len(), 2);
    assert!(parse_mentions("@ab @abcdefghijklmnopqrstuvwxyzabcdefghi @no-dash", 5).is_empty());
}

#[test]
fn code_spans_and_zero_limit_are_ignored() {
    assert_eq!(
        parse_mentions("`@hidden` @shown ``` @also_hidden ``` @last", 8),
        vec!["shown".to_string(), "last".to_string()]
    );
    assert!(parse_mentions("@shown", 0).is_empty());
    assert!(parse_mentions("unmatched ` @hidden", 8).is_empty());
}
