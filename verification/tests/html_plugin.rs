use omni_minify::html::HTMLPlugin;
use omni_minify::{Minifier, MinifyError, MinifyLevel};

#[test]
fn test_html_detection() {
    let plugin = HTMLPlugin::new();

    assert!(plugin.detect(b"<!DOCTYPE html><html><body>Hello</body></html>"));
    assert!(plugin.detect(b"<html><head><title>Test</title></head><body></body></html>"));
    assert!(plugin.detect(b"<div class='test'>Content</div>"));
    assert!(plugin.detect(b"<p>Paragraph</p>"));
    assert!(plugin.detect(b"<script>alert('test');</script>"));
    assert!(plugin.detect(b"<style>.class { color: red; }</style>"));

    assert!(!plugin.detect(b"function test() { return 42; }"));
    assert!(!plugin.detect(b"body { color: red; }"));
    assert!(!plugin.detect(b"const x = 42;"));
    assert!(!plugin.detect(b""));
    assert!(!plugin.detect(b"This is just plain text"));
}

#[test]
fn lib_test_safe_minification() {
    let mut plugin = HTMLPlugin::new();
    let input = b"<!DOCTYPE html>\n<html>\n<head>\n    <title>Test</title>\n</head>\n<body>\n    <!-- This is a comment -->\n    <p>Hello World</p>\n</body>\n</html>";

    let result = plugin.safe_minify(input);
    assert!(result.is_ok());

    let result_bytes = result.unwrap();
    let output = String::from_utf8_lossy(&result_bytes);

    assert!(output.contains("<!DOCTYPE html>"));
    assert!(output.contains("<html>"));
    assert!(!output.contains("<!-- This is a comment -->"));
}

#[test]
fn lib_test_aggressive_minification() {
    let mut plugin = HTMLPlugin::new();
    let input = b"<!DOCTYPE html>\n<html>\n<head>\n</head>\n<body>\n    <p>Hello</p>\n</body>\n</html>";

    let result = plugin.aggressive_minify(input);
    assert!(result.is_ok());

    let result_bytes = result.unwrap();
    let output = String::from_utf8_lossy(&result_bytes);

    assert!(!output.contains("\n"));
    assert!(!output.contains("<!DOCTYPE"));
}

#[test]
fn lib_test_plugin_name() {
    let plugin = HTMLPlugin::new();
    assert_eq!(plugin.name(), "html");
}

#[test]
fn lib_test_empty_input() {
    let mut plugin = HTMLPlugin::new();

    assert!(!plugin.detect(b""));

    let result = plugin.minify(b"", MinifyLevel::Safe);
    assert!(result.is_err());
}

#[test]
fn test_html_fragment() {
    let mut plugin = HTMLPlugin::new();

    assert!(plugin.detect(b"<div>Content</div>"));
    assert!(plugin.detect(b"<p>Paragraph</p>"));

    let result = plugin.minify(b"<div>Content</div>", MinifyLevel::Safe);
    assert!(result.is_ok());
}

#[test]
fn test_html_comment_removal() {
    let mut plugin = HTMLPlugin::new();
    let input = b"<!DOCTYPE html>\n<html>\n<!-- Header comment -->\n<head>\n    <!-- Meta comment -->\n    <title>Test</title>\n</head>\n<body>\n    <!-- Body comment -->\n    <p>Content</p>\n    <!-- Footer comment -->\n</body>\n</html>";

    let result = plugin.safe_minify(input).unwrap();
    let output = String::from_utf8_lossy(&result);

    // All HTML comments should be removed
    assert!(!output.contains("<!-- Header comment -->"));
    assert!(!output.contains("<!-- Meta comment -->"));
    assert!(!output.contains("<!-- Body comment -->"));
    assert!(!output.contains("<!-- Footer comment -->"));

    // HTML structure should remain
    assert!(output.contains("<html>"));
    assert!(output.contains("<title>Test</title>"));
    assert!(output.contains("<p>Content</p>"));
}

#[test]
fn test_html_whitespace_collapse() {
    let mut plugin = HTMLPlugin::new();
    let input = b"<html>   \n   <head>   \n   <title>   Test   </title>   \n   </head>   \n   <body>   \n   <p>   Content   </p>   \n   </body>   \n   </html>";

    let result = plugin.safe_minify(input).unwrap();
    let output = String::from_utf8_lossy(&result);

    // Whitespace between tags should be collapsed
    assert!(!output.contains("   \n   "));
    // Whitespace between tags goes, leading whitespace in text content stays
    assert!(output.contains("<html><head><title>   Test</title></head><body><p>   Content</p></body></html>"));

    // Leading whitespace in text content should be preserved
    assert!(output.contains("   Test"));
    assert!(output.contains("   Content"));
}

#[test]
fn test_html_tag_preservation() {
    let mut plugin = HTMLPlugin::new();
    let input = b"<!DOCTYPE html>\n<html lang=\"en\">\n<head>\n    <meta charset=\"UTF-8\">\n    <meta name=\"viewport\" content=\"width=device-width, initial-scale=1.0\">\n    <title>Test Page</title>\n</head>\n<body>\n    <div class=\"container\">\n        <h1 id=\"header\">Hello, World!</h1>\n        <p class=\"text\">This is a test.</p>\n    </div>\n</body>\n</html>";

    let result = plugin.safe_minify(input).unwrap();
    let output = String::from_utf8_lossy(&result);

    // All HTML tags and attributes should be preserved
    assert!(output.contains("<!DOCTYPE html>"));
    assert!(output.contains("<html lang=\"en\">"));
    assert!(output.contains("<meta charset=\"UTF-8\">"));
    assert!(output.contains("<meta name=\"viewport\" content=\"width=device-width, initial-scale=1.0\">"));
    assert!(output.contains("<title>Test Page</title>"));
    assert!(output.contains("<div class=\"container\">"));
    assert!(output.contains("<h1 id=\"header\">Hello, World!</h1>"));
    assert!(output.contains("<p class=\"text\">This is a test.</p>"));
}

#[test]
fn test_html_script_and_style_preservation() {
    let mut plugin = HTMLPlugin::new();
    let input = b"<html>\n<head>\n    <style>\n        body { color: red; }\n        .class { margin: 0; }\n    </style>\n    <script>\n        function test() {\n            return 42;\n        }\n    </script>\n</head>\n<body>\n    <p>Content</p>\n</body>\n</html>";

    let result = plugin.safe_minify(input).unwrap();
    let output = String::from_utf8_lossy(&result);

    // Script and style content should be preserved with internal formatting
    assert!(output.contains("<style>"));
    assert!(output.contains("body { color: red; }"));
    assert!(output.contains(".class { margin: 0; }"));
    assert!(output.contains("</style>"));

    assert!(output.contains("<script>"));
    assert!(output.contains("function test() {"));
    assert!(output.contains("return 42;"));
    assert!(output.contains("</script>"));
}

#[test]
fn test_html_nested_elements() {
    let mut plugin = HTMLPlugin::new();
    let input = b"<div class=\"outer\">\n    <div class=\"inner\">\n        <span class=\"text\">Nested content</span>\n        <ul>\n            <li>Item 1</li>\n            <li>Item 2</li>\n        </ul>\n    </div>\n</div>";

    let result = plugin.safe_minify(input).unwrap();
    let output = String::from_utf8_lossy(&result);

    // Nested structure should be preserved
    assert!(output.contains("<div class=\"outer\">"));
    assert!(output.contains("<div class=\"inner\">"));
    assert!(output.contains("<span class=\"text\">Nested content</span>"));
    assert!(output.contains("<ul>"));
    assert!(output.contains("<li>Item 1</li>"));
    assert!(output.contains("<li>Item 2</li>"));
    assert!(output.contains("</ul>"));
    assert!(output.contains("</div>"));
}

#[test]
fn test_html_self_closing_tags() {
    let mut plugin = HTMLPlugin::new();
    let input = b"<html>\n<head>\n    <meta charset=\"UTF-8\" />\n    <link rel=\"stylesheet\" href=\"style.css\" />\n    <img src=\"image.jpg\" alt=\"Test\" />\n</head>\n<body>\n    <br />\n    <hr />\n    <input type=\"text\" name=\"test\" />\n</body>\n</html>";

    let result = plugin.safe_minify(input).unwrap();
    let output = String::from_utf8_lossy(&result);

    // Self-closing tags should be preserved
    assert!(output.contains("<meta charset=\"UTF-8\" />"));
    assert!(output.contains("<link rel=\"stylesheet\" href=\"style.css\" />"));
    assert!(output.contains("<img src=\"image.jpg\" alt=\"Test\" />"));
    assert!(output.contains("<br />"));
    assert!(output.contains("<hr />"));
    assert!(output.contains("<input type=\"text\" name=\"test\" />"));
}

#[test]
fn test_html_aggressive_mode_differences() {
    let mut plugin = HTMLPlugin::new();
    let input = b"<!DOCTYPE html>\n<html>\n<head>\n    <title>Test</title>\n</head>\n<body>\n    <p>Content</p>\n</body>\n</html>";

    let safe_result = plugin.safe_minify(input).unwrap();
    let aggressive_result = plugin.aggressive_minify(input).unwrap();

    let safe_output = String::from_utf8_lossy(&safe_result);
    let aggressive_output = String::from_utf8_lossy(&aggressive_result);

    // Aggressive mode should produce same or smaller output
    assert!(aggressive_result.len() <= safe_result.len());

    // Safe mode should preserve DOCTYPE
    assert!(safe_output.contains("<!DOCTYPE html>"));

    // Both should preserve HTML structure
    assert!(safe_output.contains("<html>"));
    assert!(aggressive_output.contains("<html>") || aggressive_output.contains("<title>"));
}

#[test]
fn test_html_document_validity_preservation() {
    let mut plugin = HTMLPlugin::new();
    let input = b"<!DOCTYPE html>\n<html lang=\"en\">\n<head>\n    <meta charset=\"UTF-8\">\n    <title>Valid Document</title>\n</head>\n<body>\n    <h1>Header</h1>\n    <p>Paragraph with <strong>bold</strong> and <em>italic</em> text.</p>\n    <ul>\n        <li>List item 1</li>\n        <li>List item 2</li>\n    </ul>\n</body>\n</html>";

    let result = plugin.safe_minify(input).unwrap();
    let output = String::from_utf8_lossy(&result);

    // Document should remain valid HTML
    assert!(plugin.is_valid_html(&output));

    // Essential structure should be preserved
    assert!(output.contains("<!DOCTYPE html>"));
    assert!(output.contains("<html lang=\"en\">"));
    assert!(output.contains("<head>"));
    assert!(output.contains("<meta charset=\"UTF-8\">"));
    assert!(output.contains("<title>Valid Document</title>"));
    assert!(output.contains("</head>"));
    assert!(output.contains("<body>"));
    assert!(output.contains("<h1>Header</h1>"));
    assert!(output.contains("Paragraph"));
    assert!(output.contains("<strong>bold</strong>"));
    assert!(output.contains("<em>italic</em>"));
    assert!(output.contains("text."));
    assert!(output.contains("<ul>"));
    assert!(output.contains("<li>List item 1</li>"));
    assert!(output.contains("<li>List item 2</li>"));
    assert!(output.contains("</ul>"));
    assert!(output.contains("</body>"));
    assert!(output.contains("</html>"));
}

#[test]
fn test_html_edge_cases() {
    let mut plugin = HTMLPlugin::new();

    // Test with only whitespace
    let whitespace_only = b"   \n\t   \n   ";
    assert!(!plugin.detect(whitespace_only));

    // Test with HTML-like but invalid content
    let invalid_html = b"< div > content < /div >"; // Spaces in tags
    assert!(!plugin.detect(invalid_html));

    // Test with minimal valid HTML
    let minimal_html = b"<p>content</p>";
    assert!(plugin.detect(minimal_html));
    let result = plugin.minify(minimal_html, MinifyLevel::Safe);
    assert!(result.is_ok());
}

#[test]
fn test_html_large_document_handling() {
    let mut plugin = HTMLPlugin::new();

    // Create a larger HTML document with repeated elements
    let mut large_html = String::from("<!DOCTYPE html><html><head><title>Large Document</title></head><body>");
    for i in 0..100 {
        large_html.push_str(&format!(
            "<div class=\"item-{}\">   <h2>Header {}</h2>   <p>Content for item {} with some text.</p>   </div>   ",
            i, i, i
        ));
    }
    large_html.push_str("</body></html>");

    let result = plugin.safe_minify(large_html.as_bytes());
    assert!(result.is_ok());

    let output = result.unwrap();
    let output_str = String::from_utf8_lossy(&output);

    // Should still be valid HTML
    assert!(plugin.is_valid_html(&output_str));
    // Should be smaller than or equal to input
    assert!(output.len() <= large_html.len());
    // Should preserve structure
    assert!(output_str.contains("<!DOCTYPE html>"));
    assert!(output_str.contains("<title>Large Document</title>"));
    assert!(output_str.contains("item-0"));
    assert!(output_str.contains("item-99"));
}

#[test]
fn test_html_malformed_input_handling() {
    let mut plugin = HTMLPlugin::new();

    // Test various malformed HTML inputs
    let malformed_inputs = vec![
        b"<html><head><title>Unclosed title</head><body></body></html>".as_slice(),
        b"<html><body><div>Unclosed div</body></html>".as_slice(),
        b"<html><body><p>Paragraph with <strong>unclosed strong</p></body></html>".as_slice(),
    ];

    for malformed in malformed_inputs {
        // Should still detect as HTML due to structure
        assert!(plugin.detect(malformed));

        // Minification should handle gracefully (not crash)
        let result = plugin.minify(malformed, MinifyLevel::Safe);
        match result {
            Ok(output) => {
                // If successful, output should not be empty
                assert!(!output.is_empty());
            }
            Err(_) => {
                // Failure is acceptable for malformed input
            }
        }
    }
}

#[test]
fn test_html_special_characters_and_entities() {
    let mut plugin = HTMLPlugin::new();
    let input = b"<html><body><p>&lt;script&gt;alert('test');&lt;/script&gt;</p><p>&amp; &quot; &apos; &copy; &reg;</p></body></html>";

    let result = plugin.safe_minify(input).unwrap();
    let output = String::from_utf8_lossy(&result);

    // HTML entities should be preserved
    assert!(output.contains("&lt;script&gt;"));
    assert!(output.contains("&lt;/script&gt;"));
    assert!(output.contains("&amp;"));
    assert!(output.contains("&quot;"));
    assert!(output.contains("&apos;"));
    assert!(output.contains("&copy;"));
    assert!(output.contains("&reg;"));
}

#[test]
fn test_html_mixed_content_types() {
    let mut plugin = HTMLPlugin::new();
    let input = b"<html>\n<head>\n    <style>/* CSS comment */ body { color: red; }</style>\n    <script>// JS comment\n    function test() { return 42; }</script>\n</head>\n<body>\n    <!-- HTML comment -->\n    <p>Regular text content</p>\n</body>\n</html>";

    let result = plugin.safe_minify(input).unwrap();
    let output = String::from_utf8_lossy(&result);

    // HTML comments should be removed
    assert!(!output.contains("<!-- HTML comment -->"));

    // CSS and JS content should be preserved (including their comments)
    assert!(output.contains("<style>/* CSS comment */ body { color: red; }</style>"));
    assert!(output.contains("<script>// JS comment"));
    assert!(output.contains("function test() { return 42; }</script>"));

    // Regular text should be preserved
    assert!(output.contains("<p>Regular text content</p>"));
}

#[test]
fn html_empty_input_is_a_parse_error() {
    let mut plugin = HTMLPlugin::new();
    match plugin.minify(b"", MinifyLevel::Aggressive) {
        Err(MinifyError::ParseError(_)) => {}
        other => panic!("unexpected result: {:?}", other),
    }
    assert!(plugin.stats().is_none());
}

#[test]
fn html_stats_after_minification() {
    let mut plugin = HTMLPlugin::new();
    let input = b"<p>  a  </p>\n<p>b</p>";
    let out = plugin.minify(input, MinifyLevel::Safe).unwrap();
    let stats = plugin.stats().unwrap();
    assert_eq!(stats.before_bytes, input.len());
    assert_eq!(stats.after_bytes, out.len());
}

#[test]
fn html_whitespace_between_tags_goes() {
    let input: Vec<char> = "<a>  <b> x </b>\n</a>".chars().collect();
    let out: String = HTMLPlugin::remove_whitespace_outside_tags(&input).into_iter().collect();
    assert!(!out.contains("<a>  <b>"));
    assert!(out.contains("<b>"));
}

#[test]
fn html_quoted_attribute_values_are_kept() {
    let input: Vec<char> = "<a title=\"x  <y\">z</a>".chars().collect();
    let out: String = HTMLPlugin::remove_whitespace_outside_tags(&input).into_iter().collect();
    assert_eq!(out, "<a title=\"x  <y\">z</a>");
    let input: Vec<char> = "<p>a</p>  \n  <p title='b  c'>d</p>".chars().collect();
    let out: String = HTMLPlugin::remove_whitespace_outside_tags(&input).into_iter().collect();
    assert_eq!(out, "<p>a</p><p title='b  c'>d</p>");
}

#[test]
fn html_empty_attribute_values_keep_their_names() {
    let mut plugin = HTMLPlugin::new();
    let out = plugin.aggressive_minify(b"<input disabled=\"\" type=\"text\">").unwrap();
    let out = String::from_utf8(out).unwrap();
    assert!(out.contains("<input disabled type=\"text\">"), "{}", out);
}
