use litmus::{LitmusError, EXIT_BLOCKING, EXIT_SOFTWARE, EXIT_SUCCESS, EXIT_USAGE, EXIT_WARNING};

#[test]
fn exit_codes_pinned_to_adr_0066_group_3() {
    assert_eq!(EXIT_SUCCESS, 0);
    assert_eq!(EXIT_WARNING, 1);
    assert_eq!(EXIT_BLOCKING, 2);
    assert_eq!(EXIT_USAGE, 64);
    assert_eq!(EXIT_SOFTWARE, 70);
}

#[test]
fn usage_exit_code_is_64() {
    let e = LitmusError::Usage("too many args".to_owned());
    assert_eq!(e.exit_code(), EXIT_USAGE);
}

#[test]
fn internal_exit_code_is_70() {
    let e = LitmusError::Internal("invariant violated".to_owned());
    assert_eq!(e.exit_code(), EXIT_SOFTWARE);
}

#[test]
fn display_usage_includes_message() {
    let e = LitmusError::Usage("unknown flag --foo".to_owned());
    assert_eq!(e.to_string(), "litmus: usage error: unknown flag --foo");
}

#[test]
fn display_internal_includes_message() {
    let e = LitmusError::Internal("invariant: empty path".to_owned());
    assert_eq!(
        e.to_string(),
        "litmus: internal error: invariant: empty path"
    );
}
