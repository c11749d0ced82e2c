use git_workon_review::source::{branch_from_lookups, RangeDots, Source};

#[test]
fn classify_bare_stack_is_stack_keyword() {
    assert_eq!(Source::classify("stack"), Source::Stack);
}

#[test]
fn classify_bare_uncommitted_is_uncommitted_keyword() {
    assert_eq!(Source::classify("uncommitted"), Source::Uncommitted);
}

#[test]
fn classify_qualified_stack_ref_is_ref_not_keyword() {
    assert_eq!(
        Source::classify("refs/heads/stack"),
        Source::Ref("refs/heads/stack".to_string())
    );
    assert_eq!(
        Source::classify("heads/stack"),
        Source::Ref("heads/stack".to_string())
    );
}

#[test]
fn classify_qualified_uncommitted_ref_is_ref_not_keyword() {
    assert_eq!(
        Source::classify("refs/heads/uncommitted"),
        Source::Ref("refs/heads/uncommitted".to_string())
    );
}

#[test]
fn classify_is_case_sensitive() {
    assert_eq!(Source::classify("Stack"), Source::Ref("Stack".to_string()));
    assert_eq!(
        Source::classify("Uncommitted"),
        Source::Ref("Uncommitted".to_string())
    );
    assert_eq!(Source::classify("STACK"), Source::Ref("STACK".to_string()));
}

#[test]
fn classify_arbitrary_text_is_ref() {
    assert_eq!(Source::classify("main"), Source::Ref("main".to_string()));
    assert_eq!(
        Source::classify("deadbeef"),
        Source::Ref("deadbeef".to_string())
    );
}

#[test]
fn classify_empty_string_is_ref() {
    assert_eq!(Source::classify(""), Source::Ref(String::new()));
}

#[test]
fn classify_two_dot_range() {
    assert_eq!(
        Source::classify("a..b"),
        Source::Range {
            base_text: "a".to_string(),
            head_text: "b".to_string(),
            dots: RangeDots::Two,
        }
    );
}

#[test]
fn classify_three_dot_range() {
    assert_eq!(
        Source::classify("a...b"),
        Source::Range {
            base_text: "a".to_string(),
            head_text: "b".to_string(),
            dots: RangeDots::Three,
        }
    );
}

#[test]
fn classify_range_empty_sides() {
    assert_eq!(
        Source::classify("..main"),
        Source::Range {
            base_text: String::new(),
            head_text: "main".to_string(),
            dots: RangeDots::Two,
        }
    );
    assert_eq!(
        Source::classify("main.."),
        Source::Range {
            base_text: "main".to_string(),
            head_text: String::new(),
            dots: RangeDots::Two,
        }
    );
    assert_eq!(
        Source::classify(".."),
        Source::Range {
            base_text: String::new(),
            head_text: String::new(),
            dots: RangeDots::Two,
        }
    );
}

#[test]
fn classify_dotted_text_mixed_with_keyword_text_is_range() {
    assert_eq!(
        Source::classify("stack..main"),
        Source::Range {
            base_text: "stack".to_string(),
            head_text: "main".to_string(),
            dots: RangeDots::Two,
        }
    );
}

#[test]
fn classify_prefers_the_three_dot_split() {
    // `...` contains `..`, so the three-dot form is found first.
    assert_eq!(
        Source::classify("a....b"),
        Source::Range {
            base_text: "a".to_string(),
            head_text: ".b".to_string(),
            dots: RangeDots::Three,
        }
    );
}

#[test]
fn classify_splits_at_the_first_range_operator() {
    assert_eq!(
        Source::classify("a..b..c"),
        Source::Range {
            base_text: "a".to_string(),
            head_text: "b..c".to_string(),
            dots: RangeDots::Two,
        }
    );
}

#[test]
fn branch_from_lookups_takes_the_first_spelling_found() {
    assert_eq!(branch_from_lookups("refs/heads/main", &[false, true]), Some("main".to_string()));
    assert_eq!(branch_from_lookups("refs/heads/main", &[true]), Some("refs/heads/main".to_string()));
    assert_eq!(branch_from_lookups("heads/x", &[false, true]), Some("x".to_string()));
    assert_eq!(branch_from_lookups("heads/x", &[false, false]), None);
    assert_eq!(branch_from_lookups("main", &[]), None);
    assert_eq!(branch_from_lookups("main", &[false, true]), None);
}
