use omnirec::token::{socket_path, token_from_contents, token_path, validate_token};

#[test]
fn test_get_token_path_with_xdg() {
    let path = token_path(None, Some("/home/user"));
    assert!(path.ends_with("omnirec/approval-token"));
    assert_eq!(path, "/home/user/.local/state/omnirec/approval-token");
    assert_eq!(token_path(Some("/state"), Some("/home/user")), "/state/omnirec/approval-token");
    assert_eq!(token_path(None, None), "/tmp/.local/state/omnirec/approval-token");
}

#[test]
fn test_validate_token_mismatch() {
    assert!(!validate_token(None, "any-token"));
    assert!(!validate_token(Some("abc"), "abd"));
    assert!(!validate_token(Some("abc"), "abcd"));
    assert!(validate_token(Some("abc"), "abc"));
}

#[test]
fn test_token_format() {
    let token = token_from_contents("  test-token  ");
    assert_eq!(token, Some("test-token".to_string()));
    assert_eq!(token_from_contents(" \n\t"), None);
}

#[test]
fn picker_socket_path() {
    assert_eq!(socket_path(Some("/run/user/1000")), "/run/user/1000/omnirec/picker.sock");
    assert_eq!(socket_path(None), "/tmp/omnirec/picker.sock");
    assert_eq!(socket_path(Some("/run/user/1000/")), "/run/user/1000/omnirec/picker.sock");
}
