use omni_minify::js::JavaScriptPlugin;
use omni_minify::{Minifier, MinifyError, MinifyLevel};

#[test]
fn test_javascript_detection() {
    let plugin = JavaScriptPlugin::new();

    // Should detect JavaScript
    assert!(plugin.detect(b"function hello() { return 'world'; }"));
    assert!(plugin.detect(b"const x = 42;"));
    assert!(plugin.detect(b"let y = () => console.log('test');"));
    assert!(plugin.detect(b"import React from 'react';"));

    // Should detect TypeScript
    assert!(plugin.detect(b"interface User { name: string; }"));
    assert!(plugin.detect(b"type MyType = string | number;"));

    // Should not detect non-JavaScript content
    assert!(!plugin.detect(b"<html><body>Hello</body></html>"));
    assert!(!plugin.detect(b"body { color: red; }"));
    assert!(!plugin.detect(b""));
    assert!(!plugin.detect(b"This is just plain text"));
}

#[test]
fn js_test_safe_minification() {
    let mut plugin = JavaScriptPlugin::new();
    let input = b"function test() {\n  // This is a comment\n  return 42;\n}";

    let result = plugin.safe_minify(input);
    assert!(result.is_ok());

    let result_bytes = result.unwrap();
    let output = String::from_utf8_lossy(&result_bytes);
    // Should still be valid JavaScript but potentially smaller
    assert!(output.contains("function"));
    assert!(output.contains("return"));
    assert!(output.contains("42"));
    // Comments should be removed
    assert!(!output.contains("// This is a comment"));
}

#[test]
fn js_test_plugin_name() {
    let plugin = JavaScriptPlugin::new();
    assert_eq!(plugin.name(), "javascript");
}

#[test]
fn js_test_empty_input() {
    let mut plugin = JavaScriptPlugin::new();

    // Empty input should not be detected as JavaScript
    assert!(!plugin.detect(b""));

    // Minifying empty input should fail gracefully
    let result = plugin.minify(b"", MinifyLevel::Safe);
    assert!(result.is_err());
}

#[test]
fn test_malformed_javascript() {
    let mut plugin = JavaScriptPlugin::new();
    let malformed = b"function unclosed() { // missing closing brace";

    // Should still detect as JavaScript due to keywords
    assert!(plugin.detect(malformed));

    // But minification should fail
    let result = plugin.minify(malformed, MinifyLevel::Safe);
    assert!(result.is_err());

    match result {
        Err(MinifyError::ParseError(_)) => {}
        _ => panic!("Should have returned ParseError"),
    }
}

#[test]
fn js_safe_output_exact() {
    let mut plugin = JavaScriptPlugin::new();
    let input = b"function test() {\n  // This is a comment\n  return 42;\n}";
    let out = plugin.minify(input, MinifyLevel::Safe).unwrap();
    assert_eq!(String::from_utf8(out.clone()).unwrap(), "function test(){return 42;}");
    let stats = plugin.stats().unwrap();
    assert_eq!(stats.before_bytes, input.len());
    assert_eq!(stats.after_bytes, out.len());
}

#[test]
fn js_aggressive_shortens_globals() {
    let mut plugin = JavaScriptPlugin::new();
    let input = b"const x = 1;\nconsole.log(window.document);";
    let safe = plugin.minify(input, MinifyLevel::Safe).unwrap();
    let aggressive = plugin.minify(input, MinifyLevel::Aggressive).unwrap();
    assert!(aggressive.len() <= safe.len());
    let text = String::from_utf8(aggressive).unwrap();
    assert!(text.contains("c.log(w.d)"));
    assert!(!text.contains("console"));
}

#[test]
fn js_comment_removal_keeps_strings() {
    let input: Vec<char> = "a = \"// not a comment\"; // gone\nb = 1; /* gone */".chars().collect();
    let out: String = JavaScriptPlugin::remove_comments_preserving_strings(&input)
        .into_iter()
        .collect();
    assert!(out.contains("\"// not a comment\""));
    assert!(!out.contains("gone"));
}

#[test]
fn js_whitespace_separation_rule() {
    let empty: Vec<char> = Vec::new();
    let some: Vec<char> = vec!['x'];
    assert!(!JavaScriptPlugin::needs_whitespace_separation('a', &empty));
    assert!(JavaScriptPlugin::needs_whitespace_separation('a', &some));
    assert!(JavaScriptPlugin::needs_whitespace_separation('$', &some));
    assert!(!JavaScriptPlugin::needs_whitespace_separation(';', &some));
}

#[test]
fn js_regex_start_characters() {
    assert!(JavaScriptPlugin::could_be_regex_start('='));
    assert!(JavaScriptPlugin::could_be_regex_start('('));
    assert!(!JavaScriptPlugin::could_be_regex_start('a'));
}

#[test]
fn js_parse_reports_unbalanced_syntax() {
    let plugin = JavaScriptPlugin::new();
    assert!(plugin.parse_javascript("function f() { return (1); }").is_ok());
    match plugin.parse_javascript("function f() { return (1; }") {
        Err(MinifyError::ParseError(m)) => assert!(m.starts_with("Unbalanced")),
        other => panic!("unexpected result: {:?}", other),
    }
}

#[test]
fn js_counts_removed_comments() {
    let before: Vec<char> = "a; // x\nb; /* y */".chars().collect();
    let after = JavaScriptPlugin::remove_comments_preserving_strings(&before);
    assert_eq!(JavaScriptPlugin::count_comments_removed(&before, &after), 2);
}

#[test]
fn js_counts_identifier_changes() {
    let before: Vec<char> = "console.log(window)".chars().collect();
    let after = JavaScriptPlugin::apply_aggressive_optimizations(&before);
    let after_text: String = after.iter().collect();
    assert_eq!(after_text, "c.log(w)");
    assert_eq!(JavaScriptPlugin::count_identifier_changes(&before, &after), 2);
}

// Whether `out` arises from `input` by deleting characters and turning
// spaces, tabs and line breaks into spaces.
fn only_removes(out: &str, input: &str) -> bool {
    let mut rest = input.chars();
    'outer: for o in out.chars() {
        for c in rest.by_ref() {
            if o == c || (o == ' ' && matches!(c, ' ' | '\t' | '\n' | '\r')) {
                continue 'outer;
            }
        }
        return false;
    }
    true
}

#[test]
fn js_safe_output_only_removes() {
    let mut plugin = JavaScriptPlugin::new();
    let input = "let a = 1;\t// note\nlet  b = \"x  y\"; /* block */ a\n+\tb;";
    let out = plugin.minify(input.as_bytes(), MinifyLevel::Safe).unwrap();
    let out = String::from_utf8(out).unwrap();
    assert!(out.chars().count() <= input.chars().count());
    assert!(only_removes(&out, input));
    assert!(out.contains("\"x  y\""));
    assert!(!out.contains("note"));
    assert!(!out.contains("block"));
}

#[test]
fn js_comment_brackets_and_well_formed_output() {
    let mut plugin = JavaScriptPlugin::new();
    // The check counts brackets outside strings, comments included.
    assert!(plugin.parse_javascript("let a{//{\n}}").is_ok());
    assert!(plugin.parse_javascript("}{").is_err());
    assert!(plugin.parse_javascript("let s = '{';").is_ok());
    // Removing that comment would unbalance the output, so minification
    // refuses the input.
    assert!(matches!(plugin.minify(b"let a{//{\n}}", MinifyLevel::Safe), Err(MinifyError::ParseError(_))));
    // The output of an accepted input passes the check.
    for input in ["let(a/ /)", "let a = {b: [1, 2]} // note\n;", "f('(', \"[\") /* x */"] {
        assert!(plugin.parse_javascript(input).is_ok());
        let out = plugin.minify(input.as_bytes(), MinifyLevel::Safe).unwrap();
        let out = String::from_utf8(out).unwrap();
        assert!(plugin.parse_javascript(&out).is_ok(), "{}", out);
        assert!(out.len() <= input.len());
    }
}

#[test]
fn js_safe_and_aggressive_fail_alike() {
    let mut plugin = JavaScriptPlugin::new();
    let bad = b"function unclosed() { // missing closing brace";
    assert!(matches!(plugin.minify(bad, MinifyLevel::Safe), Err(MinifyError::ParseError(_))));
    assert!(matches!(plugin.minify(bad, MinifyLevel::Aggressive), Err(MinifyError::ParseError(_))));
}
