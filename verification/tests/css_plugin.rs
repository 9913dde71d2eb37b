use omni_minify::css::CSSPlugin;
use omni_minify::{Minifier, MinifyError, MinifyLevel};

#[test]
fn test_css_detection() {
    let plugin = CSSPlugin::new();

    // Should detect CSS
    assert!(plugin.detect(b"body { color: red; }"));
    assert!(plugin.detect(b".class { margin: 0; padding: 0; }"));
    assert!(plugin.detect(b"#id { font-size: 14px; }"));
    assert!(plugin.detect(b"*{ margin: 0; }"));
    assert!(plugin.detect(b"@import url('style.css');"));
    assert!(plugin.detect(b"@media screen { .class { display: none; } }"));
    assert!(plugin.detect(b"@keyframes slide { from { opacity: 0; } }"));

    // Should not detect non-CSS content
    assert!(!plugin.detect(b"<html><body>Hello</body></html>"));
    assert!(!plugin.detect(b"function test() { return 42; }"));
    assert!(!plugin.detect(b"const x = 42;"));
    assert!(!plugin.detect(b""));
    assert!(!plugin.detect(b"This is just plain text"));
}

#[test]
fn test_safe_minification() {
    let mut plugin = CSSPlugin::new();
    let input = b"body {\n    /* This is a comment */\n    color: red;\n    margin: 0;\n}";

    let result = plugin.safe_minify(input);
    assert!(result.is_ok());

    let result_bytes = result.unwrap();
    let output = String::from_utf8_lossy(&result_bytes);

    // Should be valid CSS but smaller
    assert!(output.contains("body{color:red;margin:0;}"));
    // Comments should be removed
    assert!(!output.contains("/* This is a comment */"));
}

#[test]
fn test_aggressive_minification() {
    let mut plugin = CSSPlugin::new();
    let input = b"body {\n    color: red;\n}";

    let result = plugin.aggressive_minify(input);
    assert!(result.is_ok());

    let result_bytes = result.unwrap();
    let output = String::from_utf8_lossy(&result_bytes);

    // Aggressive mode should remove newlines
    assert!(!output.contains("\n"));
    assert!(output.contains("body{color:red}"));
}

#[test]
fn test_plugin_name() {
    let plugin = CSSPlugin::new();
    assert_eq!(plugin.name(), "css");
}

#[test]
fn test_empty_input() {
    let mut plugin = CSSPlugin::new();

    // Empty input should not be detected as CSS
    assert!(!plugin.detect(b""));

    // Minifying empty input should fail gracefully
    let result = plugin.minify(b"", MinifyLevel::Safe);
    assert!(result.is_err());
}

#[test]
fn test_malformed_css() {
    let mut plugin = CSSPlugin::new();
    let malformed = b"body { color: red; /* missing closing brace";

    // Should still detect as CSS
    assert!(plugin.detect(malformed));

    // But minification should fail
    let result = plugin.minify(malformed, MinifyLevel::Safe);
    assert!(result.is_err());
}

#[test]
fn test_css_comment_removal() {
    let mut plugin = CSSPlugin::new();
    let input = b"/* Header comment */\nbody {\n    /* Inline comment */\n    color: red; /* End comment */\n}\n/* Footer comment */";

    let result = plugin.safe_minify(input).unwrap();
    let output = String::from_utf8_lossy(&result);

    // All comments should be removed
    assert!(!output.contains("/* Header comment */"));
    assert!(!output.contains("/* Inline comment */"));
    assert!(!output.contains("/* End comment */"));
    assert!(!output.contains("/* Footer comment */"));

    // CSS structure should remain
    assert!(output.contains("body"));
    assert!(output.contains("color:red"));
}

#[test]
fn test_css_whitespace_collapse() {
    let mut plugin = CSSPlugin::new();
    let input = b"body    {   \n   color   :   red   ;   \n   margin   :   0   ;   \n}";

    let result = plugin.safe_minify(input).unwrap();
    let output = String::from_utf8_lossy(&result);

    // Whitespace should be collapsed
    assert!(!output.contains("   "));
    assert!(!output.contains("\n"));
    assert!(output.contains("body{color:red;margin:0;}"));
}

#[test]
fn test_css_property_preservation() {
    let mut plugin = CSSPlugin::new();
    let input = b".class {\n    background-color: #ff0000;\n    font-family: 'Arial', sans-serif;\n    margin: 10px 20px 30px 40px;\n}";

    let result = plugin.safe_minify(input).unwrap();
    let output = String::from_utf8_lossy(&result);

    // Properties should be preserved
    assert!(output.contains("background-color:#ff0000"));
    assert!(output.contains("font-family:'Arial',sans-serif"));
    assert!(output.contains("margin:10px"));
    assert!(output.contains("20px"));
    assert!(output.contains("30px"));
    assert!(output.contains("40px"));
}

#[test]
fn test_css_selector_preservation() {
    let mut plugin = CSSPlugin::new();
    let input = b"body, html { margin: 0; }\n.class#id[attr=\"value\"] { padding: 0; }\n@media screen and (max-width: 768px) { .responsive { display: none; } }";

    let result = plugin.safe_minify(input).unwrap();
    let output = String::from_utf8_lossy(&result);

    // Complex selectors should be preserved
    assert!(output.contains("body,html{margin:0;}"));
    assert!(output.contains(".class#id[attr=\"value\"]{padding:0;}"));
    assert!(output.contains("@media"));
    assert!(output.contains("screen"));
    assert!(output.contains("max-width:768px"));
    assert!(output.contains(".responsive{display:none;}"));
}

#[test]
fn test_css_string_preservation() {
    let mut plugin = CSSPlugin::new();
    let input = b".class {\n    content: \"Hello   World\";\n    font-family: 'Times New Roman';\n    background-image: url('path/to/image.jpg');\n}";

    let result = plugin.safe_minify(input).unwrap();
    let output = String::from_utf8_lossy(&result);

    // Strings should preserve internal whitespace
    assert!(output.contains("content:\"Hello   World\""));
    assert!(output.contains("font-family:'Times New Roman'"));
    assert!(output.contains("background-image:url('path/to/image.jpg')"));
}

#[test]
fn test_css_at_rules() {
    let mut plugin = CSSPlugin::new();
    let input = b"@charset \"UTF-8\";\n@import url('external.css');\n@keyframes slide {\n    from { opacity: 0; }\n    to { opacity: 1; }\n}";

    let result = plugin.safe_minify(input).unwrap();
    let output = String::from_utf8_lossy(&result);

    // At-rules should be preserved and minified
    assert!(output.contains("@charset"));
    assert!(output.contains("UTF-8"));
    assert!(output.contains("@import"));
    assert!(output.contains("url('external.css')"));
    assert!(output.contains("@keyframes"));
    assert!(output.contains("slide"));
    assert!(output.contains("from{opacity:0;}"));
    assert!(output.contains("to{opacity:1;}"));
}

#[test]
fn test_css_aggressive_mode_differences() {
    let mut plugin = CSSPlugin::new();
    let input = b"body {\n    color: red;\n    margin: 0;\n}";

    let safe_result = plugin.safe_minify(input).unwrap();
    let aggressive_result = plugin.aggressive_minify(input).unwrap();

    let safe_output = String::from_utf8_lossy(&safe_result);
    let aggressive_output = String::from_utf8_lossy(&aggressive_result);

    // Aggressive mode should produce same or smaller output
    assert!(aggressive_result.len() <= safe_result.len());

    // Both should preserve CSS structure
    assert!(safe_output.contains("body{color:red;margin:0;}"));
    assert!(
        aggressive_output.contains("body{color:red;margin:0}")
            || aggressive_output.contains("body{color:red;margin:0;}")
    );
}

#[test]
fn test_css_edge_cases() {
    let mut plugin = CSSPlugin::new();

    // Test with only whitespace
    let whitespace_only = b"   \n\t   \n   ";
    assert!(!plugin.detect(whitespace_only));

    // Test with CSS-like but invalid content
    let invalid_css = b"{ color: red }"; // Missing selector
    assert!(!plugin.detect(invalid_css));

    // Test with minimal valid CSS
    let minimal_css = b"*{margin:0}";
    assert!(plugin.detect(minimal_css));
    let result = plugin.minify(minimal_css, MinifyLevel::Safe);
    assert!(result.is_ok());
}

#[test]
fn test_css_large_file_handling() {
    let mut plugin = CSSPlugin::new();

    // Create a larger CSS file with repeated rules
    let mut large_css = String::new();
    for i in 0..100 {
        large_css.push_str(&format!(
            ".class{} {{ color: red; margin: {}px; padding: {}px; }}\n",
            i,
            i,
            i * 2
        ));
    }

    let result = plugin.safe_minify(large_css.as_bytes());
    assert!(result.is_ok());

    let output = result.unwrap();
    let output_str = String::from_utf8_lossy(&output);

    // Should still be valid CSS
    assert!(plugin.parse_css(&output_str).is_ok());
    // Should be smaller than input
    assert!(output.len() < large_css.len());
}

#[test]
fn test_css_nested_structures() {
    let mut plugin = CSSPlugin::new();
    let input = b"@media screen {\n    .container {\n        @supports (display: grid) {\n            .grid-item {\n                display: grid;\n            }\n        }\n    }\n}";

    let result = plugin.safe_minify(input);
    assert!(result.is_ok());

    let output = result.unwrap();
    let output_str = String::from_utf8_lossy(&output);

    // Nested structures should be preserved
    assert!(output_str.contains("@media"));
    assert!(output_str.contains("screen"));
    assert!(output_str.contains("@supports"));
    assert!(output_str.contains("display:grid"));
    assert!(output_str.contains(".container"));
    assert!(output_str.contains(".grid-item"));
}

#[test]
fn css_empty_input_is_a_parse_error() {
    let mut plugin = CSSPlugin::new();
    match plugin.minify(b"", MinifyLevel::Aggressive) {
        Err(MinifyError::ParseError(m)) => assert_eq!(m, "Empty input"),
        other => panic!("unexpected result: {:?}", other),
    }
    assert!(plugin.stats().is_none());
}

#[test]
fn css_unbalanced_input_is_reported() {
    let plugin = CSSPlugin::new();
    match plugin.parse_css("a { b: c;") {
        Err(MinifyError::ParseError(m)) => assert!(m.starts_with("Unbalanced")),
        other => panic!("unexpected result: {:?}", other),
    }
    assert!(plugin.parse_css("a { b: c; }").is_ok());
}

#[test]
fn css_stats_after_minification() {
    let mut plugin = CSSPlugin::new();
    let input = b"body {\n    color: red;\n}";
    let out = plugin.minify(input, MinifyLevel::Safe).unwrap();
    let stats = plugin.stats().unwrap();
    assert_eq!(stats.before_bytes, input.len());
    assert_eq!(stats.after_bytes, out.len());
    assert_eq!(out, b"body{color:red;}".to_vec());
}

#[test]
fn css_whitespace_pass_keeps_strings() {
    let input: Vec<char> = "a { content: \"x  y\"; }".chars().collect();
    let out: String = CSSPlugin::remove_whitespace_preserving_strings(&input).into_iter().collect();
    assert_eq!(out, "a{content:\"x  y\";}");
    assert!(out.chars().count() <= input.len());
}

#[test]
fn css_strings_keep_whitespace_around_colons() {
    let mut plugin = CSSPlugin::new();
    let out = plugin.safe_minify(b"a {\n  content: \"x : y ; z\";\n  color : red ;\n}").unwrap();
    assert_eq!(String::from_utf8(out).unwrap(), "a{content:\"x : y ; z\";color:red;}");
}
