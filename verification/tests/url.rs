use drafftink::url::{parse_params, server_url_from_origin, server_url_from_param, UrlParams};

fn some(s: &str) -> Option<String> {
    Some(s.to_string())
}

#[test]
fn query_string_parameters() {
    assert_eq!(parse_params("?room=abc123&server=localhost:3030"), (some("abc123"), some("localhost:3030")));
    assert_eq!(parse_params("#room=xyz"), (some("xyz"), None));
    assert_eq!(parse_params("??#room=a"), (some("a"), None));
    assert_eq!(parse_params(""), (None, None));
    assert_eq!(parse_params("?room=&server=s"), (None, some("s")));
    assert_eq!(parse_params("room=a&room=b"), (some("b"), None));
    assert_eq!(parse_params("room=a&room="), (some("a"), None));
    assert_eq!(parse_params("room=a=b&x=1"), (some("a=b"), None));
    assert_eq!(parse_params("room&server"), (None, None));
    assert_eq!(parse_params("a?room=1"), (None, None));
}

#[test]
fn query_string_wins_over_fragment() {
    let p = UrlParams::from_address(Some("?room=q"), Some("#room=h&server=hs"));
    assert_eq!(p.room, some("q"));
    assert_eq!(p.server, some("hs"));
    let p = UrlParams::from_address(None, Some("#room=h"));
    assert_eq!(p.room, some("h"));
    let p = UrlParams::from_address(None, None);
    assert_eq!((p.room, p.server), (None, None));
}

#[test]
fn server_from_parameter() {
    assert_eq!(server_url_from_param("localhost:3030"), "ws://localhost:3030/ws");
    assert_eq!(server_url_from_param(" example.org/ "), "ws://example.org/ws");
    assert_eq!(server_url_from_param("wss://example.org"), "wss://example.org/ws");
    assert_eq!(server_url_from_param("ws://h:1/ws"), "ws://h:1/ws");
    assert_eq!(server_url_from_param("wss://h//"), "wss://h/ws");
}

#[test]
fn server_from_origin() {
    assert_eq!(server_url_from_origin("https:", "draw.example"), "wss://draw.example/ws");
    assert_eq!(server_url_from_origin("http:", "localhost:8080"), "ws://localhost:8080/ws");
}
