use httpie::error::{Error, RenderError};
use httpie::render::{
    declares_json,
    header_lines, highlight_json, lines_with_endings, render_body, render_body_as, render_headers,
    render_response, render_status,
};

/// The text with its terminal escape sequences taken out.
fn strip_escapes(s: &str) -> String {
    let mut out = String::new();
    let mut chars = s.chars();
    while let Some(c) = chars.next() {
        if c == '\x1b' {
            for d in chars.by_ref() {
                if d == 'm' {
                    break;
                }
            }
        } else {
            out.push(c);
        }
    }
    out
}

#[test]
fn test_pretty_print_unwrap() {
    let body = r#"{
  "a": 1,
  "b": 2
}"#;
    assert_eq!(jsonxf::pretty_print(body).unwrap(), body);
}

#[test]
fn pretty_printing_twice_changes_nothing() {
    let once = jsonxf::pretty_print("{\"a\":1,\"b\":2}").unwrap();
    assert_eq!(once, "{\n  \"a\": 1,\n  \"b\": 2\n}");
    assert_eq!(jsonxf::pretty_print(&once).unwrap(), once);
}

#[test]
fn json_body_is_pretty_printed_and_highlighted() {
    let out = render_body(Some("application/json"), "{\"a\":1,\"b\":2}").unwrap();
    assert!(out.contains('\x1b'));
    assert!(out.ends_with("}\n"));
    assert_eq!(strip_escapes(&out), "{\n  \"a\": 1,\n  \"b\": 2\n}\n");
}

#[test]
fn plain_body_is_shown_verbatim() {
    assert_eq!(render_body(Some("text/plain"), "hello").unwrap(), "hello\n");
    assert_eq!(render_body(None, "{\"a\":1}").unwrap(), "{\"a\":1}\n");
    assert_eq!(render_body(Some("not a mime"), "x").unwrap(), "x\n");
}

#[test]
fn json_with_parameters_is_shown_verbatim() {
    assert_eq!(
        render_body(Some("application/json; charset=utf-8"), "{\"a\":1}").unwrap(),
        "{\"a\":1}\n"
    );
}

#[test]
fn malformed_json_is_a_render_error() {
    assert_eq!(
        render_body(Some("application/json"), "not json"),
        Err(Error::Render(RenderError::InvalidJson))
    );
    assert_eq!(
        Error::Render(RenderError::InvalidJson).message(),
        "the body is not valid JSON"
    );
}

#[test]
fn highlighting_keeps_the_text() {
    let text = "[\n  1,\n  \"x\"\n]";
    let out = highlight_json(text).unwrap();
    assert!(out.contains("\x1b[48;2;"));
    assert_eq!(strip_escapes(&out), text);
}

#[test]
fn lines_keep_their_endings() {
    assert_eq!(lines_with_endings("a\nb\n\nc"), vec!["a\n", "b\n", "\n", "c"]);
    assert_eq!(lines_with_endings("a\n"), vec!["a\n"]);
    assert_eq!(lines_with_endings(""), Vec::<String>::new());
}

#[test]
fn header_lines_are_laid_out_in_order() {
    let names = vec!["content-type".to_string(), "x-a".to_string()];
    let values = vec!["\"text/plain\"".to_string(), "\"1\"".to_string()];
    assert_eq!(
        header_lines(&names, &values),
        "content-type: \"text/plain\"\nx-a: \"1\"\n\n"
    );
    assert_eq!(header_lines(&Vec::new(), &Vec::new()), "\n");
}

#[test]
fn headers_and_status_keep_their_text() {
    let headers = vec![("server".to_string(), "\"x\"".to_string())];
    assert_eq!(strip_escapes(&render_headers(&headers)), "server: \"x\"\n\n");
    let status = render_status("HTTP/1.1 200 OK");
    assert!(status.ends_with("\n\n"));
    assert_eq!(strip_escapes(&status), "HTTP/1.1 200 OK\n\n");
}

#[test]
fn json_response_is_rendered_in_full() {
    let headers = vec![("content-type".to_string(), "application/json".to_string())];
    let (head, shown) = render_response(
        "HTTP/1.1 200 OK",
        &headers,
        Some("application/json"),
        "{\"a\":1,\"b\":2}",
    );
    let out = head + &shown.unwrap();
    assert_eq!(
        strip_escapes(&out),
        "HTTP/1.1 200 OK\n\ncontent-type: application/json\n\n{\n  \"a\": 1,\n  \"b\": 2\n}\n"
    );
    assert!(out.ends_with("}\n"));
}

#[test]
fn text_response_is_rendered_in_full() {
    let headers = vec![("content-type".to_string(), "text/plain".to_string())];
    let (head, shown) = render_response("HTTP/1.1 200 OK", &headers, Some("text/plain"), "hello");
    assert_eq!(shown.unwrap(), "hello\n");
    assert_eq!(
        strip_escapes(&head),
        "HTTP/1.1 200 OK\n\ncontent-type: text/plain\n\n"
    );
}

#[test]
fn malformed_json_response_is_an_error() {
    let headers = vec![("content-type".to_string(), "application/json".to_string())];
    let (head, shown) =
        render_response("HTTP/1.1 200 OK", &headers, Some("application/json"), "not json");
    assert_eq!(shown, Err(Error::Render(RenderError::InvalidJson)));
    assert_eq!(
        strip_escapes(&head),
        "HTTP/1.1 200 OK\n\ncontent-type: application/json\n\n"
    );
}

#[test]
fn body_follows_the_json_decision() {
    assert_eq!(render_body_as(false, "not json").unwrap(), "not json\n");
    assert_eq!(
        render_body_as(true, "not json"),
        Err(Error::Render(RenderError::InvalidJson))
    );
    let out = render_body_as(true, "[1,2]").unwrap();
    assert_eq!(strip_escapes(&out), "[\n  1,\n  2\n]\n");
}

#[test]
fn highlighting_uses_only_24_bit_colour_escapes() {
    let out = render_body(Some("application/json"), "{\"a\":[1,true,null]}").unwrap();
    let mut rest = out.as_str();
    while let Some(i) = rest.find('\x1b') {
        let tail = &rest[i..];
        assert!(tail.starts_with("\x1b[48;2;") || tail.starts_with("\x1b[38;2;"));
        rest = &tail[1..];
    }
    let again = render_body(Some("application/json"), "{\"a\":[1,true,null]}").unwrap();
    assert_eq!(out, again);
}

#[test]
fn media_type_is_matched_exactly() {
    assert!(declares_json("application/json"));
    assert!(declares_json("Application/JSON"));
    assert!(!declares_json("application/json; charset=utf-8"));
    assert!(!declares_json("application/vnd.api+json"));
    assert!(!declares_json("text/json"));
    assert!(!declares_json("json"));
}
