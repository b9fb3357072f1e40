use opinions::moderation::{body_hash, link_count, normalize_body, sanitize_for_storage, screen, ModerationRules, Screen};

fn rules() -> ModerationRules {
    ModerationRules {
        max_comment_len_chars: 32,
        max_links: 1,
        max_comments_per_window: 2,
    }
}

#[test]
fn canonical_hash_vectors_collide() {
    let expected = body_hash("hello");
    assert!(!expected.is_empty());
    for equivalent in ["hello ", "hello\u{200b}", "HELLO", "ℌELLO"] {
        assert_eq!(body_hash(equivalent), expected);
    }
    assert_eq!(normalize_body("  A\n\tB  "), "a b");
    assert_eq!(sanitize_for_storage("A\u{200b}\u{0}B\n"), "AB\n");
}

#[test]
fn blocked_rules_precede_shadow_rules() {
    assert_eq!(
        screen(" \u{200b} ", 0, 0, &rules()),
        Screen::Blocked("empty")
    );
    assert_eq!(
        screen("123456789012345678901234567890123", 0, 0, &rules()),
        Screen::Blocked("too_long")
    );
    assert_eq!(screen("https://a", 1, 2, &rules()), Screen::Blocked("rate"));
}

#[test]
fn links_duplicates_and_visible_text_are_distinct() {
    assert_eq!(link_count("http://a https://b"), 2);
    assert_eq!(
        screen("http://a https://b", 0, 0, &rules()),
        Screen::Shadow("links")
    );
    assert_eq!(screen("hello", 1, 0, &rules()), Screen::Shadow("duplicate"));
    assert_eq!(screen("hello", 0, 0, &rules()), Screen::Visible);
}

#[test]
fn scalar_length_is_not_utf8_byte_length() {
    let unicode = ModerationRules {
        max_comment_len_chars: 2,
        ..rules()
    };
    assert_eq!(screen("éé", 0, 0, &unicode), Screen::Visible);
    assert_eq!(screen("ééé", 0, 0, &unicode), Screen::Blocked("too_long"));
}
