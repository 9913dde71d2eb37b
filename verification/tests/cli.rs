use omni_minify::cli::{plugin_failure, stats_lines, App, Args};
use omni_minify::registry::{FormatOverride, PluginRegistry};
use omni_minify::{ExitCode, Minifier, MinifyError, MinifyLevel, MinifyStats};

fn args_for(input: &str, safe: bool, aggressive: bool, output: Option<&str>) -> Args {
    Args {
        input: input.to_string(),
        safe,
        aggressive,
        stats: false,
        format: None,
        output: output.map(|o| o.to_string()),
    }
}

#[test]
fn property_cli_flag_processing() {
    for (safe_flag, aggressive_flag) in [(false, false), (true, false), (false, true)] {
        let args = args_for("test.js", safe_flag, aggressive_flag, None);
        let expected_level = if aggressive_flag { MinifyLevel::Aggressive } else { MinifyLevel::Safe };
        assert_eq!(args.get_minify_level(), expected_level);
    }
}

#[test]
fn test_args_minify_level() {
    // Test default (safe mode)
    let args = args_for("test.js", false, false, None);
    assert_eq!(args.get_minify_level(), MinifyLevel::Safe);

    // Test explicit safe mode
    let args = args_for("test.js", true, false, None);
    assert_eq!(args.get_minify_level(), MinifyLevel::Safe);

    // Test aggressive mode
    let args = args_for("test.js", false, true, None);
    assert_eq!(args.get_minify_level(), MinifyLevel::Aggressive);
}

#[test]
fn test_output_path_generation() {
    // Test default output path generation
    let args = args_for("script.js", false, false, None);
    assert_eq!(args.get_output_path(), "script.min.js");

    // Test with custom output path
    let args = args_for("script.js", false, false, Some("custom-output.js"));
    assert_eq!(args.get_output_path(), "custom-output.js");

    // Test with no extension
    let args = args_for("script", false, false, None);
    assert_eq!(args.get_output_path(), "script.min");

    // Test with path and extension
    let args = args_for("src/styles.css", false, false, None);
    assert_eq!(args.get_output_path(), "src/styles.min.css");
}

#[test]
fn output_path_edge_cases() {
    assert_eq!(args_for("/abs/dir/app.test.js", false, false, None).get_output_path(), "/abs/dir/app.test.min.js");
    assert_eq!(args_for(".hidden", false, false, None).get_output_path(), ".hidden.min");
    assert_eq!(args_for("dir/", false, false, None).get_output_path(), "dir.min");
    assert_eq!(args_for("./a.css", false, false, None).get_output_path(), "./a.min.css");
}

struct NamedPlugin {
    name: String,
    first_byte: Option<u8>,
    fail: bool,
}

impl Minifier for NamedPlugin {
    fn name(&self) -> &str {
        &self.name
    }
    fn detect(&self, input: &[u8]) -> bool {
        match self.first_byte {
            Some(b) => !input.is_empty() && input[0] == b,
            None => true,
        }
    }
    fn minify(&mut self, input: &[u8], _: MinifyLevel) -> Result<Vec<u8>, MinifyError> {
        if self.fail {
            Err(MinifyError::ParseError("Intentional failure for testing".to_string()))
        } else {
            Ok(input.to_vec())
        }
    }
    fn stats(&self) -> Option<MinifyStats> {
        None
    }
}

fn plugin(name: &str, first_byte: Option<u8>) -> Box<dyn Minifier> {
    Box::new(NamedPlugin { name: name.to_string(), first_byte, fail: false })
}

struct NeverDetect(String);

impl Minifier for NeverDetect {
    fn name(&self) -> &str {
        &self.0
    }
    fn detect(&self, _: &[u8]) -> bool {
        false
    }
    fn minify(&mut self, input: &[u8], _: MinifyLevel) -> Result<Vec<u8>, MinifyError> {
        Ok(input.to_vec())
    }
    fn stats(&self) -> Option<MinifyStats> {
        None
    }
}

#[test]
fn test_plugin_registry_basic_operations() {
    let mut registry = PluginRegistry::new();
    assert!(registry.is_empty());
    assert_eq!(registry.len(), 0);

    registry.register(plugin("test", None));
    assert!(!registry.is_empty());
    assert_eq!(registry.len(), 1);
    assert_eq!(registry.get_plugin_names(), vec!["test"]);
}

#[test]
fn main_property_plugin_detection_consistency() {
    let inputs: Vec<Vec<u8>> = vec![Vec::new(), b"{a}".to_vec(), b"abc".to_vec(), vec![b'{'], vec![0u8; 20]];
    for input_data in inputs {
        let mut registry = PluginRegistry::new();
        registry.register(plugin("conditional", Some(b'{')));
        registry.register(plugin("always", None));
        registry.register(Box::new(NeverDetect("never".to_string())));

        let first = registry.find_plugin(&input_data).map(|p| p.name().to_string());
        let second = registry.find_plugin(&input_data).map(|p| p.name().to_string());
        let third = registry.find_plugin(&input_data).map(|p| p.name().to_string());
        assert_eq!(first, second);
        assert_eq!(second, third);

        match first {
            Some(name) => {
                let expected = if !input_data.is_empty() && input_data[0] == b'{' { "conditional" } else { "always" };
                assert_eq!(name, expected);
            }
            None => assert!(input_data.is_empty()),
        }
    }
}

#[test]
fn test_plugin_detection_edge_cases() {
    let mut registry = PluginRegistry::new();

    // Test empty input
    assert!(registry.find_plugin(&[]).is_none());

    // Test with no plugins registered
    assert!(registry.find_plugin(b"some content").is_none());

    // Test format override with no matching plugin
    assert!(registry.find_plugin_by_format(FormatOverride::Js).is_none());

    registry.register(plugin("test", Some(b't')));

    // Test detection with matching content
    assert!(registry.find_plugin(b"test content").is_some());

    // Test detection with non-matching content
    assert!(registry.find_plugin(b"other content").is_none());
}

#[test]
fn test_format_override_functionality() {
    let mut registry = PluginRegistry::new();
    registry.register(Box::new(NeverDetect("javascript".to_string())));
    registry.register(Box::new(NeverDetect("css".to_string())));

    let js_plugin = registry.find_plugin_by_format(FormatOverride::Js);
    assert!(js_plugin.is_some());
    assert_eq!(js_plugin.unwrap().name(), "javascript");

    let css_plugin = registry.find_plugin_by_format(FormatOverride::Css);
    assert!(css_plugin.is_some());
    assert_eq!(css_plugin.unwrap().name(), "css");

    // Test non-existent format
    let html_plugin = registry.find_plugin_by_format(FormatOverride::Html);
    assert!(html_plugin.is_none());
}

#[test]
fn test_exit_code_mapping() {
    assert_eq!(ExitCode::from(MinifyError::FileNotFound("test".to_string())), ExitCode::FileNotFound);
    assert_eq!(ExitCode::from(MinifyError::PermissionError("test".to_string())), ExitCode::PermissionDenied);
    assert_eq!(ExitCode::from(MinifyError::UnsupportedFormat), ExitCode::UnsupportedFormat);
    assert_eq!(ExitCode::from(MinifyError::ParseError("test".to_string())), ExitCode::ParseError);
    assert_eq!(ExitCode::from(MinifyError::PluginError("test".to_string())), ExitCode::PluginError);
    assert_eq!(
        ExitCode::from(MinifyError::MemoryLimitExceeded("test".to_string())),
        ExitCode::MemoryLimitExceeded
    );
}

#[test]
fn property_file_safety_on_failure() {
    let mut registry = PluginRegistry::new();
    registry.register(Box::new(NamedPlugin { name: "failing_plugin".to_string(), first_byte: None, fail: true }));
    let mut app = App::with_registry(registry);
    let args = args_for("input.txt", true, false, Some("input.min.tmp"));
    let input = b"some file content".to_vec();
    match app.minify_input(&args, &input) {
        Err(MinifyError::PluginError(m)) => {
            assert_eq!(m, "Plugin 'failing_plugin' failed: Parse error: Intentional failure for testing")
        }
        other => panic!("unexpected result: {:?}", other),
    }
    // The input is untouched and the plugin keeps no statistics.
    assert_eq!(input, b"some file content".to_vec());
    assert!(app.plugin_stats(0).is_none());
}

#[test]
fn app_new_registers_the_four_plugins_in_order() {
    let app = App::new();
    assert_eq!(app.registry().get_plugin_names(), vec!["glb", "javascript", "css", "html"]);
}

#[test]
fn app_selects_and_minifies() {
    let mut app = App::new();
    let args = args_for("a.css", false, false, None);
    let (index, out) = app.minify_input(&args, b"body {\n  color: red;\n}").unwrap();
    assert_eq!(app.plugin_name(index), "css");
    assert_eq!(out, b"body{color:red;}".to_vec());
    let stats = app.plugin_stats(index).unwrap();
    assert_eq!(stats.after_bytes, out.len());

    // Nothing detects plain text: the format is unsupported.
    assert!(matches!(app.minify_input(&args, b"just words"), Err(MinifyError::UnsupportedFormat)));
    // Empty input is never detected.
    assert!(matches!(app.minify_input(&args, b""), Err(MinifyError::UnsupportedFormat)));
}

#[test]
fn app_format_override() {
    let mut app = App::new();
    let mut args = args_for("a.txt", false, false, None);
    args.format = Some(FormatOverride::Css);
    let (index, _) = app.minify_input(&args, b"a { b: c; }").unwrap();
    assert_eq!(app.plugin_name(index), "css");
    args.format = Some(FormatOverride::Rust);
    assert!(matches!(app.minify_input(&args, b"fn main() {}"), Err(MinifyError::UnsupportedFormat)));
}

#[test]
fn plugin_failure_message() {
    match plugin_failure("css", &MinifyError::ParseError("Empty input".to_string())) {
        MinifyError::PluginError(m) => assert_eq!(m, "Plugin 'css' failed: Parse error: Empty input"),
        other => panic!("unexpected error: {:?}", other),
    }
}

#[test]
fn stats_display_without_plugin_report() {
    let lines = stats_lines("css", "in.css", "in.min.css", &None, 200, 150);
    assert_eq!(
        lines,
        vec![
            "=== Minification Statistics ===",
            "Plugin: css",
            "Input: in.css",
            "Output: in.min.css",
            "Before: 200 bytes",
            "After: 150 bytes",
            "Saved: 50 bytes (25.0%)",
            "===============================",
        ]
    );
    let lines = stats_lines("css", "a", "b", &None, 0, 0);
    assert_eq!(lines[6], "Saved: 0 bytes (0.0%)");
}

#[test]
fn stats_display_with_plugin_report() {
    let stats = Some(MinifyStats::new(1000, 750));
    let lines = stats_lines("js", "a.js", "a.min.js", &stats, 1000, 750);
    assert_eq!(lines.len(), 6);
    assert_eq!(lines[4], "Size: 1000 → 750 bytes, Saved: 250 bytes (25.0%)");
}

#[test]
fn error_help_lists_plugins() {
    let app = App::new();
    let help = app.error_help(&MinifyError::UnsupportedFormat);
    assert_eq!(
        help,
        vec![
            "No plugin available to handle this file format.",
            "Available plugins: glb, javascript, css, html",
            "Try using --format flag to override auto-detection.",
        ]
    );
    let empty = App::with_registry(PluginRegistry::new());
    assert_eq!(
        empty.error_help(&MinifyError::UnsupportedFormat)[1],
        "No plugins are currently registered. Plugins will be available once implemented."
    );
    let help = app.error_help(&MinifyError::MemoryLimitExceeded("x".to_string()));
    assert_eq!(help[1], "Maximum supported file size is 100 MB.");
    assert_eq!(app.error_help(&MinifyError::FileNotFound("x".to_string())).len(), 1);
}

#[test]
fn default_output_path_never_overwrites_input() {
    for input in ["a.js", "a.min", "dir/a.min.js", "/", "", "..", ".", "x/.", "a.b.c", "./", "//a"] {
        let out = args_for(input, false, false, None).get_output_path();
        assert_ne!(out, input);
        assert!(out.contains(".min"));
    }
    assert_eq!(args_for("..", false, false, None).get_output_path(), ".min");
}
