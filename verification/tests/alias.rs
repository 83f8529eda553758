use warren::instance::{judge_alias, validate_alias, AliasError};

#[test]
fn accepted_aliases() {
    for a in ["a", "0", "gh-work", "opencode-work", "a1-b2-c3", &"x".repeat(64)] {
        assert!(validate_alias(a).is_ok(), "{}", a);
    }
}

#[test]
fn empty_alias() {
    let e = validate_alias("").unwrap_err();
    assert!(matches!(e, AliasError::Empty));
    assert_eq!(e.message(), "alias cannot be empty");
}

#[test]
fn long_alias() {
    let long = "y".repeat(65);
    let e = validate_alias(&long).unwrap_err();
    assert!(matches!(e, AliasError::TooLong(65)));
    assert_eq!(e.message(), "alias must be 64 characters or fewer (got 65)");
    let wide = "é".repeat(33);
    assert!(matches!(validate_alias(&wide), Err(AliasError::TooLong(66))));
}

#[test]
fn invalid_aliases() {
    for a in ["-a", "a-", "A", "a_b", "a b", "a.b", "é", "a/b"] {
        match validate_alias(a) {
            Err(AliasError::Invalid(s)) => assert_eq!(s, a),
            other => panic!("{}: {:?}", a, other),
        }
    }
    assert_eq!(
        validate_alias("Bad").unwrap_err().message(),
        "alias 'Bad' is invalid. Must match [a-z0-9][a-z0-9-]*[a-z0-9], start and end with alphanumeric, contain only lowercase letters, digits, and hyphens."
    );
}

#[test]
fn consecutive_hyphens() {
    let e = validate_alias("a--b").unwrap_err();
    assert!(matches!(e, AliasError::ConsecutiveHyphens));
    assert_eq!(e.message(), "alias cannot contain consecutive hyphens");
}

#[test]
fn judging_with_given_match() {
    assert!(judge_alias("ok", Some(true)).is_ok());
    assert!(matches!(judge_alias("ok", Some(false)), Err(AliasError::Invalid(_))));
    assert!(matches!(judge_alias("ok", None), Err(AliasError::PatternRejected)));
    assert!(matches!(judge_alias("", None), Err(AliasError::Empty)));
    assert!(matches!(judge_alias("a--b", Some(true)), Err(AliasError::ConsecutiveHyphens)));
    assert_eq!(AliasError::PatternRejected.message(), "alias pattern failed to compile");
}

#[test]
fn alias_shape_law() {
    for a in ["a-b", "9", "a0-0z", "ab-cd-ef"] {
        assert!(validate_alias(a).is_ok(), "{}", a);
    }
    for a in ["a\n", "\na", "a-", "-", "a--b", "ab-", "aB", "a b", ""] {
        assert!(validate_alias(a).is_err(), "{:?}", a);
    }
}
