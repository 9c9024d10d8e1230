use portrelay::config::{parse_config, parse_route_line, ConfigError};

#[test]
fn single_route_line() {
    let routes = parse_config(b"127.0.0.1:9000 127.0.0.1:9100").unwrap();
    assert_eq!(routes.len(), 1);
    assert_eq!(routes[0].source, b"127.0.0.1:9000".to_vec());
    assert_eq!(routes[0].destination, b"127.0.0.1:9100".to_vec());
}

#[test]
fn several_lines_with_trailing_newline() {
    let text = b"a:1 b:1\na:2 b:2\n";
    let routes = parse_config(text).unwrap();
    assert_eq!(routes.len(), 2);
    assert_eq!(routes[0].source, b"a:1".to_vec());
    assert_eq!(routes[0].destination, b"b:1".to_vec());
    assert_eq!(routes[1].source, b"a:2".to_vec());
    assert_eq!(routes[1].destination, b"b:2".to_vec());
}

#[test]
fn carriage_returns_are_stripped() {
    let routes = parse_config(b"a:1 b:1\r\na:2 b:2\r\n").unwrap();
    assert_eq!(routes.len(), 2);
    assert_eq!(routes[1].destination, b"b:2".to_vec());
}

#[test]
fn empty_text_gives_no_routes() {
    let routes = parse_config(b"").unwrap();
    assert_eq!(routes.len(), 0);
}

#[test]
fn split_happens_at_first_space_only() {
    let routes = parse_config(b"src dst with spaces").unwrap();
    assert_eq!(routes.len(), 1);
    assert_eq!(routes[0].source, b"src".to_vec());
    assert_eq!(routes[0].destination, b"dst with spaces".to_vec());
}

#[test]
fn line_without_space_is_reported_by_index() {
    let err = parse_config(b"a:1 b:1\nnospace\na:3 b:3").unwrap_err();
    assert_eq!(err, ConfigError::MalformedLine(1));
}

#[test]
fn empty_line_is_malformed() {
    let err = parse_config(b"a:1 b:1\n\na:3 b:3").unwrap_err();
    assert_eq!(err, ConfigError::MalformedLine(1));
}

#[test]
fn first_line_malformed_gives_index_zero() {
    let err = parse_config(b"nospace\na:2 b:2").unwrap_err();
    assert_eq!(err, ConfigError::MalformedLine(0));
}

#[test]
fn route_line_without_space_is_refused() {
    assert!(parse_route_line(b"nospace").is_none());
}

#[test]
fn route_line_splits_at_first_space() {
    let rd = parse_route_line(b"left right").unwrap();
    assert_eq!(rd.source, b"left".to_vec());
    assert_eq!(rd.destination, b"right".to_vec());
}
