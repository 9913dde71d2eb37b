use omni_minify::minifier::IoErrorKind;
use omni_minify::registry::PluginRegistry;
use omni_minify::safety::{check_file_size, output_directory, FileBackup, MAX_FILE_SIZE};
use omni_minify::{ExitCode, FormatMetrics, Minifier, MinifyError, MinifyLevel, MinifyStats};

#[test]
fn minify_stats_with_extra() {
    let stats = MinifyStats::new(1000, 750).with_extra("lines: 100 -> 75".to_string());
    assert_eq!(stats.extra, Some("lines: 100 -> 75".to_string()));
}

#[test]
fn minify_stats_calculation() {
    let stats = MinifyStats::new(1000, 750);
    assert_eq!(stats.bytes_saved(), 250);
    assert!(stats.generate_report().contains("Saved: 250 bytes (25.0%)"));
}

#[test]
fn minify_stats_with_lines() {
    let stats = MinifyStats::new(1000, 750).with_lines(100, 75);
    assert_eq!(stats.lines, Some((100, 75)));
    assert_eq!(stats.lines_saved(), Some(25));
    assert!(stats.generate_report().contains("Lines: 100 → 75 (25.0% reduction)"));
}

#[test]
fn minify_stats_with_format_metrics() {
    let metrics = FormatMetrics::JavaScript {
        identifiers_renamed: 10,
        functions_inlined: 3,
        dead_code_removed: 2,
    };
    let stats = MinifyStats::new(1000, 750).with_format_metrics(metrics);

    let report = stats.generate_report();
    assert!(report.contains("Size: 1000 → 750 bytes"));
    assert!(report.contains("Saved: 250 bytes (25.0%)"));
    assert!(report.contains("Identifiers renamed: 10"));
    assert!(report.contains("Functions inlined: 3"));
    assert!(report.contains("Dead code blocks removed: 2"));
}

#[test]
fn minify_stats_comprehensive_report() {
    let metrics = FormatMetrics::Css {
        selectors_merged: 5,
        rules_removed: 8,
        properties_collapsed: 12,
    };
    let stats = MinifyStats::new(2000, 1500)
        .with_lines(150, 120)
        .with_format_metrics(metrics)
        .with_extra("Custom optimization applied".to_string());

    let report = stats.generate_report();
    assert!(report.contains("Size: 2000 → 1500 bytes"));
    assert!(report.contains("Saved: 500 bytes (25.0%)"));
    assert!(report.contains("Lines: 150 → 120 (20.0% reduction)"));
    assert!(report.contains("Selectors merged: 5"));
    assert!(report.contains("Rules removed: 8"));
    assert!(report.contains("Properties collapsed: 12"));
    assert!(report.contains("Custom optimization applied"));
}

#[test]
fn minify_stats_glb_metrics() {
    let metrics = FormatMetrics::Glb {
        triangles_before: 1000,
        triangles_after: 800,
        vertices_before: 500,
        vertices_after: 400,
    };
    let stats = MinifyStats::new(50000, 40000).with_format_metrics(metrics);

    let report = stats.generate_report();
    assert!(report.contains("Triangles: 1000 → 800 (20.0% reduction)"));
    assert!(report.contains("Vertices: 500 → 400 (20.0% reduction)"));
}

#[test]
fn minify_error_display() {
    let error = MinifyError::ParseError("Invalid syntax".to_string());
    assert_eq!(error.message(), "Parse error: Invalid syntax");
}

#[test]
fn minify_level_equality() {
    assert_eq!(MinifyLevel::Safe, MinifyLevel::Safe);
    assert_ne!(MinifyLevel::Safe, MinifyLevel::Aggressive);
}

struct MockPlugin {
    name: String,
    can_detect: bool,
    stats: Option<MinifyStats>,
}

impl MockPlugin {
    fn new(name: String, can_detect: bool) -> Self {
        Self { name, can_detect, stats: None }
    }
}

impl Minifier for MockPlugin {
    fn name(&self) -> &str {
        &self.name
    }

    fn detect(&self, _input_bytes: &[u8]) -> bool {
        self.can_detect
    }

    fn minify(&mut self, input_bytes: &[u8], _level: MinifyLevel) -> Result<Vec<u8>, MinifyError> {
        let output = input_bytes.to_vec();
        self.stats = Some(MinifyStats::new(input_bytes.len(), output.len()));
        Ok(output)
    }

    fn stats(&self) -> Option<MinifyStats> {
        self.stats.clone()
    }
}

#[test]
fn test_plugin_registry_basic_functionality() {
    let mut registry = PluginRegistry::new();

    // Test empty registry
    assert_eq!(registry.get_plugin_names().len(), 0);
    assert!(registry.find_plugin(b"test").is_none());

    // Add a plugin
    registry.register(Box::new(MockPlugin::new("test_plugin".to_string(), true)));

    // Verify plugin is registered
    let names = registry.get_plugin_names();
    assert_eq!(names.len(), 1);
    assert_eq!(names[0], "test_plugin");

    // Verify plugin can be found
    let found = registry.find_plugin(b"test");
    assert!(found.is_some());
    assert_eq!(found.unwrap().name(), "test_plugin");
}

#[test]
fn lib_property_plugin_detection_consistency() {
    let inputs: Vec<Vec<u8>> = vec![Vec::new(), b"x".to_vec(), b"{}".to_vec(), vec![0xff, 0x00, 0x10]];
    for input_data in inputs {
        let mut registry = PluginRegistry::new();
        registry.register(Box::new(MockPlugin::new("always_detect".to_string(), true)));
        registry.register(Box::new(MockPlugin::new("never_detect".to_string(), false)));

        let first_result = registry.find_plugin(&input_data).map(|p| p.name().to_string());
        let second_result = registry.find_plugin(&input_data).map(|p| p.name().to_string());
        assert_eq!(first_result, second_result);
        if input_data.is_empty() {
            assert!(first_result.is_none());
        } else {
            assert_eq!(first_result, Some("always_detect".to_string()));
        }
    }
}

#[test]
fn property_plugin_registry_completeness() {
    let name_sets: Vec<Vec<&str>> = vec![vec!["a"], vec!["css", "js", "html"], vec!["x", "x", "y", "z"]];
    for plugin_names in name_sets {
        let mut registry = PluginRegistry::new();
        for name in &plugin_names {
            registry.register(Box::new(MockPlugin::new(name.to_string(), true)));
        }
        let registered_names = registry.get_plugin_names();
        assert_eq!(registered_names, plugin_names);
        assert_eq!(registry.len(), plugin_names.len());
    }
}

#[test]
fn property_statistics_accuracy() {
    let cases: Vec<(usize, usize)> = vec![(0, 0), (1000, 750), (10, 20), (7, 7), (1_000_000, 1)];
    for (before_bytes, after_bytes) in cases {
        let stats = MinifyStats::new(before_bytes, after_bytes);
        assert_eq!(stats.before_bytes, before_bytes);
        assert_eq!(stats.after_bytes, after_bytes);
        assert_eq!(stats.bytes_saved(), before_bytes.saturating_sub(after_bytes));
        assert_eq!(stats.is_reportable(), after_bytes <= before_bytes);
    }
}

#[test]
fn exit_codes_have_their_numbers() {
    assert_eq!(ExitCode::Success.code(), 0);
    assert_eq!(ExitCode::GeneralError.code(), 1);
    assert_eq!(ExitCode::FileNotFound.code(), 2);
    assert_eq!(ExitCode::PermissionDenied.code(), 3);
    assert_eq!(ExitCode::UnsupportedFormat.code(), 4);
    assert_eq!(ExitCode::ParseError.code(), 5);
    assert_eq!(ExitCode::PluginError.code(), 6);
    assert_eq!(ExitCode::MemoryLimitExceeded.code(), 7);
    assert_eq!(ExitCode::InvalidArguments.code(), 8);
}

#[test]
fn general_errors_map_to_general_exit_code() {
    assert_eq!(ExitCode::from(MinifyError::OutputExists("x".to_string())), ExitCode::GeneralError);
    assert_eq!(ExitCode::from(MinifyError::BackupError("x".to_string())), ExitCode::GeneralError);
    let io = std::io::Error::new(std::io::ErrorKind::Other, "boom");
    assert_eq!(ExitCode::from(MinifyError::IoError(io)), ExitCode::GeneralError);
}

#[test]
fn error_messages_name_their_kind() {
    assert_eq!(MinifyError::UnsupportedFormat.message(), "Unsupported file format");
    assert_eq!(MinifyError::PluginError("p".to_string()).message(), "Plugin error: p");
    assert_eq!(MinifyError::PermissionError("p".to_string()).message(), "Permission error: p");
    assert_eq!(MinifyError::FileNotFound("p".to_string()).message(), "File not found: p");
    assert_eq!(MinifyError::OutputExists("p".to_string()).message(), "Output file exists: p");
    assert_eq!(
        MinifyError::MemoryLimitExceeded("p".to_string()).message(),
        "Memory limit exceeded: p"
    );
    assert_eq!(MinifyError::BackupError("p".to_string()).message(), "Backup operation failed: p");
    let io = std::io::Error::new(std::io::ErrorKind::Other, "disk on fire");
    assert_eq!(MinifyError::IoError(io).message(), "I/O error: disk on fire");
}

#[test]
fn io_errors_are_classified() {
    let e = std::io::Error::new(std::io::ErrorKind::NotFound, "gone");
    match MinifyError::from_io_error(e) {
        MinifyError::FileNotFound(m) => assert_eq!(m, "gone"),
        other => panic!("unexpected error: {:?}", other),
    }
    let e = std::io::Error::new(std::io::ErrorKind::PermissionDenied, "no");
    match MinifyError::from_io_error(e) {
        MinifyError::PermissionError(m) => assert_eq!(m, "no"),
        other => panic!("unexpected error: {:?}", other),
    }
    let e = std::io::Error::new(std::io::ErrorKind::Other, "other");
    assert!(matches!(MinifyError::from_io_error(e), MinifyError::IoError(_)));
    let e = std::io::Error::new(std::io::ErrorKind::Other, "other");
    assert!(matches!(
        MinifyError::from_io_parts(IoErrorKind::NotFound, "t".to_string(), e),
        MinifyError::FileNotFound(_)
    ));
}

#[test]
fn file_size_limit() {
    assert!(check_file_size(0).is_ok());
    assert!(check_file_size(MAX_FILE_SIZE).is_ok());
    match check_file_size(MAX_FILE_SIZE + 1) {
        Err(MinifyError::MemoryLimitExceeded(m)) => {
            assert_eq!(m, "File too large: 104857601 bytes (max: 104857600 bytes)")
        }
        other => panic!("unexpected result: {:?}", other),
    }
}

#[test]
fn output_directory_defaults_to_current() {
    assert_eq!(output_directory("out.js"), ".");
    assert_eq!(output_directory("dir/out.js"), "dir");
    assert_eq!(output_directory("/out.js"), "/");
    assert_eq!(output_directory(""), ".");
}

#[test]
fn backup_bookkeeping() {
    let mut backup = FileBackup::new("dir/input.js");
    assert_eq!(backup.original_path(), "dir/input.js");
    assert!(backup.backup_path().is_none());
    assert!(!backup.backup_created());
    let first = backup.first_backup_path();
    assert_eq!(first, "dir/input.js.backup");
    assert_eq!(FileBackup::timestamped_path(&first, 1700000000), "dir/input.js.1700000000.backup");
    backup.record_backup(first.clone());
    assert_eq!(backup.backup_path(), Some(first));
    assert!(backup.backup_created());
    backup.clear_backup();
    assert!(backup.backup_path().is_none());
    assert!(!backup.backup_created());
}

#[test]
fn backup_path_without_extension() {
    let backup = FileBackup::new("notes");
    assert_eq!(backup.first_backup_path(), "notes.backup");
    assert_eq!(FileBackup::timestamped_path("notes.backup", 5), "notes.5.backup");
}

#[test]
fn backup_path_never_takes_the_file_path() {
    for original in ["a.js", "dir/notes", "/abs/x.tar.gz", ".hidden", "a."] {
        let backup = FileBackup::new(original);
        let first = backup.first_backup_path();
        assert_ne!(first, original);
        assert!(first.contains("backup"));
    }
    assert_eq!(FileBackup::new("/abs/x.tar.gz").first_backup_path(), "/abs/x.tar.gz.backup");
    // A path without a file name is its own first choice.
    assert_eq!(FileBackup::new("..").first_backup_path(), "..");
}

#[test]
fn white_space_matches_std() {
    for c in (0u32..0x3100).filter_map(char::from_u32) {
        assert_eq!(omni_minify::strings::is_white_space(c), c.is_whitespace(), "{:?}", c);
    }
}

#[test]
fn percent_ties_round_to_even() {
    // 1 of 16 is 6.25%, 3 of 16 is 18.75%.
    assert!(MinifyStats::new(16, 15).generate_report().contains("Saved: 1 bytes (6.2%)"));
    assert!(MinifyStats::new(16, 13).generate_report().contains("Saved: 3 bytes (18.8%)"));
    assert!(MinifyStats::new(3, 2).generate_report().contains("Saved: 1 bytes (33.3%)"));
}

#[test]
fn report_with_zero_base() {
    let stats = MinifyStats::new(0, 5).with_lines(0, 3);
    assert!(stats.is_reportable());
    let report = stats.generate_report();
    assert!(report.contains("Size: 0 → 5 bytes"));
    assert!(report.contains("Saved: 0 bytes (0.0%)"));
    assert!(report.contains("Lines: 0 → 3 (0.0% reduction)"));
    assert!(!MinifyStats::new(1, 5).is_reportable());
}

#[test]
fn percent_tie_that_is_not_a_binary_fraction_goes_up() {
    assert!(MinifyStats::new(2000, 1999).generate_report().contains("Saved: 1 bytes (0.1%)"));
}

#[test]
fn ascii_letters_are_alphabetic() {
    for c in (0u8..128).map(char::from) {
        assert_eq!(omni_minify::strings::is_alphabetic(c), c.is_ascii_alphabetic());
    }
}
