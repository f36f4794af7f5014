use featherpull::flat_json::{get_optional_number, get_string, parse_flat_json_object, JsonCursor, JsonParseError};
use featherpull::ytdlp::{append_line, progress_json_part, ytdlp_args, ytdlp_exit_result, YtdlpError};

#[test]
fn parses_string_with_escaped_characters() {
    let mut cursor = JsonCursor::new(r#""line1\nline2\"quoted\"""#);
    let parsed = cursor.parse_string().expect("パースに成功するはず");
    assert_eq!(parsed, "line1\nline2\"quoted\"");
}

#[test]
fn ignores_non_progress_lines() {
    let line = "[youtube] Extracting URL: https://example.com/watch";

    assert_eq!(progress_json_part(line), None);
}

#[test]
fn returns_error_on_malformed_json() {
    let line = r#"download:{"status": "downloading", "downloaded_bytes": }"#;

    let json_part = progress_json_part(line).expect("進捗行として認識されるはず");
    assert!(parse_flat_json_object(&json_part).is_err());
}

#[test]
fn returns_error_when_status_field_is_missing() {
    let line = r#"download:{"downloaded_bytes": 100, "total_bytes": 200}"#;

    let json_part = progress_json_part(line).expect("進捗行として認識されるはず");
    let map = parse_flat_json_object(&json_part).expect("JSONとしては正しいはず");
    assert_eq!(get_string(&map, "status"), Err(JsonParseError::MissingField("status".to_string())));
}

// ---- further cases ----

#[test]
fn progress_fields_are_read_as_text() {
    let line = r#"download:{"status": "downloading", "downloaded_bytes": 1024, "total_bytes": null, "eta": 1, "speed": 512342.5, "filename": "video.mp4"}"#;
    let json_part = progress_json_part(line).unwrap();
    let map = parse_flat_json_object(&json_part).unwrap();
    assert_eq!(get_string(&map, "status"), Ok("downloading".to_string()));
    assert_eq!(get_optional_number(&map, "downloaded_bytes"), Ok(Some("1024".to_string())));
    assert_eq!(get_optional_number(&map, "total_bytes"), Ok(None));
    assert_eq!(get_optional_number(&map, "total_bytes_estimate"), Ok(None));
    assert_eq!(get_optional_number(&map, "speed"), Ok(Some("512342.5".to_string())));
    assert_eq!(
        get_optional_number(&map, "filename"),
        Err(JsonParseError::UnexpectedType("filename".to_string()))
    );
    assert_eq!(get_string(&map, "eta"), Err(JsonParseError::UnexpectedType("eta".to_string())));
}

#[test]
fn flat_object_rejects_trailing_text_and_keeps_the_last_repeat() {
    assert!(parse_flat_json_object(r#"{"a": 1} x"#).is_err());
    let map = parse_flat_json_object(r#" {"a": 1, "a": "two"} "#).unwrap();
    assert_eq!(map.len(), 2);
    assert_eq!(get_string(&map, "a"), Ok("two".to_string()));
}

#[test]
fn command_line_carries_template_extra_arguments_and_url() {
    let args = ytdlp_args("https://example.com/v", &["-f".to_string(), "best".to_string()]);
    assert_eq!(
        args,
        vec!["--newline", "--progress-template", "download:%(progress)j", "-f", "best", "https://example.com/v"]
    );
}

#[test]
fn captured_lines_end_with_newlines() {
    let mut buffer = String::new();
    append_line(&mut buffer, "a");
    append_line(&mut buffer, "b");
    assert_eq!(buffer, "a\nb\n");
}

#[test]
fn exit_status_is_judged() {
    assert_eq!(ytdlp_exit_result(true, Some(0), "log".to_string()).unwrap().stderr, "log");
    match ytdlp_exit_result(false, Some(2), "err".to_string()) {
        Err(YtdlpError::NonZeroExit { code, stderr }) => {
            assert_eq!(code, Some(2));
            assert_eq!(stderr, "err");
        },
        other => panic!("NonZeroExitのはずが{other:?}"),
    }
}
