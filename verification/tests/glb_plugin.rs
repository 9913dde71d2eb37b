use omni_minify::glb::GlbPlugin;
use omni_minify::{FormatMetrics, Minifier, MinifyError, MinifyLevel};

#[test]
fn test_glb_plugin_creation() {
    let plugin = GlbPlugin::new();
    assert_eq!(plugin.name(), "glb");
    assert!(plugin.stats().is_none());
}

#[test]
fn test_glb_magic_bytes_detection() {
    let plugin = GlbPlugin::new();

    // Valid GLB header (magic + version 2 + length)
    let valid_glb = [
        0x67, 0x6C, 0x54, 0x46, // "glTF" magic
        0x02, 0x00, 0x00, 0x00, // version 2
        0x00, 0x01, 0x00, 0x00, // length (256 bytes)
    ];

    assert!(plugin.detect(&valid_glb));

    // Invalid magic bytes
    let invalid_magic = [
        0x00, 0x00, 0x00, 0x00, // wrong magic
        0x02, 0x00, 0x00, 0x00, // version 2
        0x00, 0x01, 0x00, 0x00, // length
    ];

    assert!(!plugin.detect(&invalid_magic));

    // Too short
    let too_short = [0x67, 0x6C, 0x54]; // Only 3 bytes
    assert!(!plugin.detect(&too_short));

    // Wrong version
    let wrong_version = [
        0x67, 0x6C, 0x54, 0x46, // "glTF" magic
        0x01, 0x00, 0x00, 0x00, // version 1 (not supported)
        0x00, 0x01, 0x00, 0x00, // length
    ];

    assert!(!plugin.detect(&wrong_version));
}

#[test]
fn test_glb_detection_with_empty_input() {
    let plugin = GlbPlugin::new();
    assert!(!plugin.detect(&[]));
}

#[test]
fn test_glb_detection_with_random_data() {
    let plugin = GlbPlugin::new();
    let random_data = vec![0x12, 0x34, 0x56, 0x78, 0x9A, 0xBC, 0xDE, 0xF0, 0x11, 0x22, 0x33, 0x44];
    assert!(!plugin.detect(&random_data));
}

#[test]
fn test_minify_with_invalid_glb_data() {
    let mut plugin = GlbPlugin::new();

    // Create fake GLB header but invalid content
    let fake_glb = [
        0x67, 0x6C, 0x54, 0x46, // "glTF" magic
        0x02, 0x00, 0x00, 0x00, // version 2
        0x20, 0x00, 0x00, 0x00, // length (32 bytes)
        // Invalid JSON chunk follows...
        0x00, 0x00, 0x00, 0x00, 0x00, 0x00, 0x00, 0x00, 0x00, 0x00, 0x00, 0x00, 0x00, 0x00,
        0x00, 0x00, 0x00, 0x00, 0x00, 0x00,
    ];

    // Should detect as GLB but fail to minify due to invalid content
    assert!(plugin.detect(&fake_glb));

    let result = plugin.minify(&fake_glb, MinifyLevel::Safe);
    assert!(result.is_err());

    // Should be a parse error
    match result {
        Err(MinifyError::ParseError(_)) => {}
        _ => panic!("Expected ParseError"),
    }
}

#[test]
fn test_stats_after_failed_minification() {
    let mut plugin = GlbPlugin::new();

    let invalid_data = b"not a glb file";
    let result = plugin.minify(invalid_data, MinifyLevel::Safe);

    assert!(result.is_err());
    // Stats should still be None after failed minification
    assert!(plugin.stats().is_none());
}

// A minimal but valid GLB file: a header and a JSON chunk without geometry.
fn create_minimal_glb() -> Vec<u8> {
    let json_chunk = br#"{"asset":{"version":"2.0"},"scenes":[{"nodes":[]}],"nodes":[],"meshes":[],"accessors":[],"bufferViews":[],"buffers":[]}"#;
    let json_length = json_chunk.len() as u32;
    let json_length_padded = ((json_length + 3) / 4) * 4; // Pad to 4-byte boundary

    let total_length = 12 + 8 + json_length_padded; // Header + JSON chunk header + JSON data

    let mut glb = Vec::new();

    // GLB header
    glb.extend_from_slice(b"glTF"); // Magic
    glb.extend_from_slice(&2u32.to_le_bytes()); // Version
    glb.extend_from_slice(&(total_length as u32).to_le_bytes()); // Total length

    // JSON chunk
    glb.extend_from_slice(&(json_length_padded as u32).to_le_bytes()); // Chunk length
    glb.extend_from_slice(b"JSON"); // Chunk type
    glb.extend_from_slice(json_chunk); // JSON data

    // Pad JSON chunk to 4-byte boundary with spaces
    while glb.len() % 4 != 0 {
        glb.push(b' ');
    }

    glb
}

#[test]
fn test_minify_minimal_glb() {
    let mut plugin = GlbPlugin::new();
    let minimal_glb = create_minimal_glb();

    // Should detect as valid GLB
    assert!(plugin.detect(&minimal_glb));

    // Should be able to minify in safe mode
    let result = plugin.minify(&minimal_glb, MinifyLevel::Safe);
    assert!(result.is_ok());

    let minified = result.unwrap();
    // Minified version should be <= original size
    assert!(minified.len() <= minimal_glb.len());

    // Should have stats after minification
    let stats = plugin.stats();
    assert!(stats.is_some());

    let stats = stats.unwrap();
    assert_eq!(stats.before_bytes, minimal_glb.len());
    assert_eq!(stats.after_bytes, minified.len());

    // Should have GLB-specific metrics
    if let Some(FormatMetrics::Glb { triangles_before, triangles_after, vertices_before, vertices_after }) =
        stats.format_metrics
    {
        // Minimal GLB has no geometry, so counts should be 0
        assert_eq!(triangles_before, 0);
        assert_eq!(triangles_after, 0);
        assert_eq!(vertices_before, 0);
        assert_eq!(vertices_after, 0);
    } else {
        panic!("Expected GLB format metrics");
    }
}

#[test]
fn test_aggressive_vs_safe_mode() {
    let mut plugin = GlbPlugin::new();
    let minimal_glb = create_minimal_glb();

    let safe_result = plugin.minify(&minimal_glb, MinifyLevel::Safe).unwrap();
    let aggressive_result = plugin.minify(&minimal_glb, MinifyLevel::Aggressive).unwrap();

    // Aggressive mode should produce output <= safe mode size
    assert!(aggressive_result.len() <= safe_result.len());
}

#[test]
fn glb_trailing_zero_padding_is_removed() {
    let mut plugin = GlbPlugin::new();
    let mut padded = create_minimal_glb();
    let original_len = padded.len();
    padded.extend_from_slice(&[0, 0, 0, 0]);
    let out = plugin.minify(&padded, MinifyLevel::Safe);
    // The padded document either parses and loses its padding, or is refused
    // as a whole: nothing else comes out.
    match out {
        Ok(bytes) => {
            assert_eq!(bytes.len(), original_len);
            assert_eq!(&bytes[..], &padded[..original_len]);
            // The output is still detected as GLB.
            assert!(plugin.detect(&bytes));
        }
        Err(MinifyError::ParseError(_)) => {}
        Err(e) => panic!("unexpected error: {:?}", e),
    }
}

#[test]
fn glb_header_detection_helper() {
    assert!(GlbPlugin::detect_glb_format(b"glTF\x02\x00\x00\x00\x00\x00\x00\x00"));
    assert!(!GlbPlugin::detect_glb_format(b"glTF\x02\x00\x00"));
}

#[test]
fn glb_parse_error_message() {
    match GlbPlugin::parse_glb_stats(b"not a glb file") {
        Err(MinifyError::ParseError(m)) => assert!(m.starts_with("Failed to parse GLB: ")),
        other => panic!("unexpected result: {:?}", other),
    }
    assert_eq!(GlbPlugin::parse_glb_stats(&create_minimal_glb()).unwrap(), (0, 0));
}

#[test]
fn glb_safe_optimization_strips_zero_padding_only() {
    let mut data = b"glTF\x02\x00\x00\x00\x14\x00\x00\x00abc\x00\x00\x00".to_vec();
    GlbPlugin::apply_safe_optimizations(&mut data).unwrap();
    assert_eq!(data, b"glTF\x02\x00\x00\x00\x14\x00\x00\x00abc".to_vec());
    // A second pass changes nothing, and the header is still there.
    let mut again = data.clone();
    GlbPlugin::apply_safe_optimizations(&mut again).unwrap();
    assert_eq!(again, data);
    assert!(GlbPlugin::detect_glb_format(&again));
    // The twelve header bytes are kept even when they end in zeros.
    let mut header_only = b"glTF\x02\x00\x00\x00\x00\x00\x00\x00\x00".to_vec();
    GlbPlugin::apply_safe_optimizations(&mut header_only).unwrap();
    assert_eq!(header_only.len(), 12);
    let mut unchanged = data.clone();
    GlbPlugin::apply_aggressive_optimizations(&mut unchanged).unwrap();
    assert_eq!(unchanged, data);
}

#[test]
fn glb_length_field_below_header_is_a_parse_error() {
    let mut plugin = GlbPlugin::new();
    let bytes = b"glTF\x02\x00\x00\x00\x05\x00\x00\x00rest";
    assert!(plugin.detect(bytes));
    match plugin.minify(bytes, MinifyLevel::Safe) {
        Err(MinifyError::ParseError(m)) => assert!(m.starts_with("Failed to parse GLB: ")),
        other => panic!("unexpected result: {:?}", other),
    }
    assert!(plugin.stats().is_none());
}
