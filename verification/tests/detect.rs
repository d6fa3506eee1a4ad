use npm_registry::detect::{detect, has_marker, marker_file_name};
use npm_registry::host::extract_host;
use npm_registry::registry::extract_registry;
use npm_registry::segment::{resolve_style, Color, Style};

#[test]
fn no_marker_returns_none() {
    let out = "export npm_config_registry='https://registry.example.com/'\n";
    assert!(detect(false, Some(out), None).is_none());
}

#[test]
fn has_marker_false_without_marker() {
    let files = vec!["package.json".to_string(), "README.md".to_string()];
    assert!(!has_marker(&files));
}

#[test]
fn has_marker_true_with_marker() {
    let files = vec!["package.json".to_string(), ".nodenv-vars".to_string()];
    assert!(has_marker(&files));
    assert_eq!(marker_file_name(), ".nodenv-vars".to_string());
}

#[test]
fn host_segment_text_from_probe_output() {
    let out = "export npm_config_registry='https://registry.example.com/path'\n";
    let m = detect(true, Some(out), None).unwrap();
    assert_eq!(m.name, "npm".to_string());
    assert_eq!(m.segments.len(), 2);
    assert_eq!(m.segments[0].name, "symbol".to_string());
    assert_eq!(m.segments[0].text, "\u{2b22} ".to_string());
    assert_eq!(m.segments[1].name, "version".to_string());
    assert_eq!(m.segments[1].text, "registry.example.com".to_string());
    assert_eq!(m.style, Style { color: Color::Green, bold: true });
}

#[test]
fn key_line_after_unrelated_line_is_honored() {
    let out = "export other_var=1\nexport npm_config_registry='https://registry.example.com/'\n";
    let m = detect(true, Some(out), None).unwrap();
    assert_eq!(m.segments[1].text, "registry.example.com".to_string());
}

#[test]
fn first_matching_line_wins() {
    let out = "export npm_config_registry='https://first.example.com/'\nexport npm_config_registry='https://second.example.com/'\n";
    let m = detect(true, Some(out), None).unwrap();
    assert_eq!(m.segments[1].text, "first.example.com".to_string());
}

#[test]
fn no_matching_line_returns_none() {
    let out = "export other_var=1\nsomething else entirely\n";
    assert_eq!(extract_registry(out), None);
    assert!(detect(true, Some(out), None).is_none());
}

#[test]
fn invalid_url_returns_none() {
    let out = "export npm_config_registry='not a url'\n";
    assert!(detect(true, Some(out), None).is_none());
    assert_eq!(extract_host("not a url"), None);
}

#[test]
fn missing_probe_output_returns_none() {
    assert!(detect(true, None, None).is_none());
}

#[test]
fn detection_is_idempotent() {
    let out = "export npm_config_registry='https://registry.example.com/'\n";
    let first = detect(true, Some(out), None);
    let second = detect(true, Some(out), None);
    assert_eq!(first, second);
    let third = detect(true, Some("no key here"), None);
    let fourth = detect(true, Some("no key here"), None);
    assert_eq!(third, fourth);
}

#[test]
fn single_quotes_are_stripped() {
    let out = "export npm_config_registry='value'";
    assert_eq!(extract_registry(out), Some("value".to_string()));
}

#[test]
fn double_quotes_are_stripped() {
    let out = "export npm_config_registry=\"value\"";
    assert_eq!(extract_registry(out), Some("value".to_string()));
}

#[test]
fn unquoted_value_passes_through() {
    let out = "export npm_config_registry=https://registry.example.com/";
    assert_eq!(
        extract_registry(out),
        Some("https://registry.example.com/".to_string())
    );
}

#[test]
fn whitespace_is_trimmed_before_parsing() {
    assert_eq!(
        extract_host("  https://example.org/x  "),
        Some("example.org".to_string())
    );
}

#[test]
fn empty_output_returns_none() {
    assert_eq!(extract_registry(""), None);
    assert!(detect(true, Some(""), None).is_none());
}

#[test]
fn empty_value_returns_none() {
    assert_eq!(extract_registry("export npm_config_registry="), Some("".to_string()));
    assert_eq!(extract_host(""), None);
    assert!(detect(true, Some("export npm_config_registry="), None).is_none());
}

#[test]
fn quotes_only_value_returns_none() {
    assert_eq!(extract_registry("export npm_config_registry=''"), Some("".to_string()));
    assert!(detect(true, Some("export npm_config_registry=''"), None).is_none());
}

#[test]
fn hostless_url_returns_none() {
    let out = "export npm_config_registry='unix:/run/foo.socket'\n";
    assert!(detect(true, Some(out), None).is_none());
}

#[test]
fn crlf_line_endings_are_handled() {
    let out = "export other_var=1\r\nexport npm_config_registry='https://registry.example.com/'\r\n";
    let m = detect(true, Some(out), None).unwrap();
    assert_eq!(m.segments[1].text, "registry.example.com".to_string());
}

#[test]
fn style_override_is_used() {
    let out = "export npm_config_registry='https://registry.example.com/'\n";
    let style = Style { color: Color::Red, bold: false };
    let m = detect(true, Some(out), Some(style)).unwrap();
    assert_eq!(m.style, style);
}

#[test]
fn default_style_is_bold_green() {
    assert_eq!(resolve_style(None), Style { color: Color::Green, bold: true });
    let style = Style { color: Color::Blue, bold: true };
    assert_eq!(resolve_style(Some(style)), style);
}
