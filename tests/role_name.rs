use juliet::role_name::{is_valid_role_name, validate_role_name};

#[test]
fn accepts_lowercase_alphanumeric_and_hyphens() {
    for valid_name in ["a", "role-1", "director-of-engineering", "a1-b2-c3"] {
        assert!(is_valid_role_name(valid_name));
        assert_eq!(validate_role_name(valid_name), Ok(()));
    }
}

#[test]
fn rejects_empty_and_hyphen_edges() {
    assert!(!is_valid_role_name(""));
    assert_eq!(
        validate_role_name(""),
        Err("Invalid role name: . Use lowercase letters, numbers, and hyphens.".to_string())
    );

    for invalid_name in ["-role", "role-", "-"] {
        assert!(!is_valid_role_name(invalid_name));
        assert_eq!(
            validate_role_name(invalid_name),
            Err(format!(
                "Invalid role name: {invalid_name}. Use lowercase letters, numbers, and hyphens."
            ))
        );
    }
}

#[test]
fn rejects_uppercase_and_non_alphanumeric_characters() {
    for invalid_name in ["Role", "my_role", "qa role", "Ã¼mlaut"] {
        assert!(!is_valid_role_name(invalid_name));
        assert_eq!(
            validate_role_name(invalid_name),
            Err(format!(
                "Invalid role name: {invalid_name}. Use lowercase letters, numbers, and hyphens."
            ))
        );
    }
}

#[test]
fn allows_consecutive_hyphens_when_not_on_edges() {
    for valid_name in ["0", "123", "eng--ops", "team-01--alpha"] {
        assert!(is_valid_role_name(valid_name));
        assert_eq!(validate_role_name(valid_name), Ok(()));
    }
}

#[test]
fn rejects_whitespace_and_path_like_names_without_trimming() {
    for invalid_name in [" role", "role ", "role/name", "role.name"] {
        assert!(!is_valid_role_name(invalid_name));
        assert_eq!(
            validate_role_name(invalid_name),
            Err(format!(
                "Invalid role name: {invalid_name}. Use lowercase letters, numbers, and hyphens."
            ))
        );
    }
}

#[test]
fn reset_prompt_bad_role_name_rejected_by_validation() {
    for bad_name in ["Invalid_Name", "../traversal", "", "-leading", "UPPER"] {
        let err = validate_role_name(bad_name)
            .expect_err(&format!("role name '{bad_name}' should be rejected"));
        assert!(
            err.contains("Invalid role name"),
            "validation error for '{bad_name}' should contain 'Invalid role name': {err}"
        );
    }
}

#[test]
fn clear_history_bad_role_name_rejected_by_validation() {
    for bad_name in ["Invalid_Name", "../traversal", "", "-leading", "UPPER"] {
        let err = validate_role_name(bad_name)
            .expect_err(&format!("role name '{bad_name}' should be rejected"));
        assert!(
            err.contains("Invalid role name"),
            "validation error for '{bad_name}' should contain 'Invalid role name': {err}"
        );
    }
}

#[test]
fn exec_bad_role_name_rejected_by_validation() {
    for bad_name in ["Invalid_Name", "../traversal", "", "-leading", "UPPER"] {
        let err = validate_role_name(bad_name)
            .expect_err(&format!("role name '{bad_name}' should be rejected"));
        assert!(
            err.contains("Invalid role name"),
            "validation error for '{bad_name}' should contain 'Invalid role name': {err}"
        );
    }
}

#[test]
fn validation_accepts_every_allowed_character() {
    assert!(is_valid_role_name("abcdefghijklmnopqrstuvwxyz-0123456789"));
    assert!(is_valid_role_name("a-b"));
    assert!(!is_valid_role_name("a\tb"));
    assert!(!is_valid_role_name("a\u{e9}"));
    assert!(!is_valid_role_name("--"));
}
