use darkshell::connect::{connect_header_complete, connect_request, connect_status, MAX_CONNECT_HEADER};

#[test]
fn connect_request_carries_sandbox_credentials() {
    assert_eq!(
        connect_request("/connect/ssh", "gw.example.com", "sb-1", "tok"),
        "CONNECT /connect/ssh HTTP/1.1\r\nHost: gw.example.com\r\nX-Sandbox-Id: sb-1\r\nX-Sandbox-Token: tok\r\n\r\n"
    );
}

#[test]
fn header_ends_at_blank_line_or_size_limit() {
    assert!(!connect_header_complete(&b"HTTP/1.1 200 OK\r\n".to_vec()));
    assert!(connect_header_complete(&b"HTTP/1.1 200 OK\r\n\r\n".to_vec()));
    assert!(!connect_header_complete(&b"\r\n\r".to_vec()));
    assert!(!connect_header_complete(&vec![b'a'; MAX_CONNECT_HEADER]));
    assert!(connect_header_complete(&vec![b'a'; MAX_CONNECT_HEADER + 1]));
}

#[test]
fn status_is_second_word_of_first_line() {
    assert_eq!(connect_status("HTTP/1.1 200 Connection established\r\n\r\n"), 200);
    assert_eq!(connect_status("HTTP/1.1   403 Forbidden\r\n"), 403);
    assert_eq!(connect_status("HTTP/1.1\r\n200\r\n"), 0);
    assert_eq!(connect_status("HTTP/1.1 abc"), 0);
    assert_eq!(connect_status("HTTP/1.1 70000"), 0);
    assert_eq!(connect_status(""), 0);
}
