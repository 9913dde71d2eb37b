//! The GLB (binary glTF) plugin: detection by header, geometry statistics
//! read through the `gltf` crate, and removal of trailing zero padding.

use vstd::prelude::*;
use vstd::wrapping::usize_specs;
use crate::minifier::{Minifier, MinifyError, MinifyLevel};
use crate::stats::{FormatMetrics, MinifyStats};
use crate::strings::string_of;
use crate::text::{append_str, string_from_str};

verus! {

#[verifier::external_type_specification]
#[verifier::external_body]
pub struct ExGltfError(gltf::Error);

/// What the statistics read from one mesh primitive: the number of
/// positions, the number of indices, and the primitive's GL drawing mode.
#[derive(Debug, Clone, Copy, PartialEq, Eq, Structural)]
pub struct PrimitiveInfo {
    pub position_count: Option<usize>,
    pub index_count: Option<usize>,
    pub mode: u32,
}

/// GL drawing modes that the triangle count distinguishes.
pub const GL_TRIANGLES: u32 = 4;

pub const GL_TRIANGLE_STRIP: u32 = 5;

pub const GL_TRIANGLE_FAN: u32 = 6;

/// Bytes that start with the binary glTF magic and have a header carry, in
/// their length field, at least the 12 bytes of the header itself; the
/// `gltf` crate subtracts the header size from that field without a check.
pub open spec fn glb_length_fits(b: Seq<u8>) -> bool {
    (b.len() >= 12 && b[0] == 0x67 && b[1] == 0x6C && b[2] == 0x54 && b[3] == 0x46) ==> b[8] as int
        + 256 * b[9] + 65536 * b[10] + 16777216 * b[11] >= 12
}

/// The primitives of all meshes, in order, of the glTF document that
/// `gltf::Gltf::from_slice` reads from the bytes, or `None` when it rejects them.
pub uninterp spec fn glb_primitives(bytes: Seq<u8>) -> Option<Seq<PrimitiveInfo>>;

/// Parses and validates a glTF document with `gltf::Gltf::from_slice` and
/// lists, for every primitive of every mesh, its position count, index count
/// and mode (`Mode::as_gl_enum`).
#[verifier::external_body]
fn read_glb_primitives(bytes: &[u8]) -> (r: Result<Vec<PrimitiveInfo>, gltf::Error>)
    requires
        glb_length_fits(bytes@),
    ensures
        match r {
            Ok(v) => glb_primitives(bytes@) == Some(v@),
            Err(_) => glb_primitives(bytes@) is None,
        },
{
    let doc = gltf::Gltf::from_slice(bytes)?;
    Ok(doc.meshes().flat_map(|mesh| mesh.primitives()).map(|p| PrimitiveInfo {
        position_count: p.get(&gltf::Semantic::Positions).map(|a| a.count()),
        index_count: p.indices().map(|a| a.count()),
        mode: p.mode().as_gl_enum(),
    }).collect())
}

/// The text that `Display` writes for a `gltf::Error`.
#[verifier::external_body]
fn gltf_error_text(e: &gltf::Error) -> String {
    format!("{}", e)
}

/// Triangles of one primitive: a third of its indices for a triangle list,
/// two fewer than its indices for a strip or a fan, none for points or
/// lines; without indices, a third of its positions.
pub open spec fn primitive_triangles(p: PrimitiveInfo) -> usize {
    match p.index_count {
        Some(n) => if p.mode == GL_TRIANGLES {
            (n / 3) as usize
        } else if p.mode == GL_TRIANGLE_STRIP || p.mode == GL_TRIANGLE_FAN {
            if n >= 2 {
                (n - 2) as usize
            } else {
                0
            }
        } else {
            0
        },
        None => match p.position_count {
            Some(n) => (n / 3) as usize,
            None => 0,
        },
    }
}

pub open spec fn primitive_vertices(p: PrimitiveInfo) -> usize {
    match p.position_count {
        Some(n) => n,
        None => 0,
    }
}

/// Sum of the triangles of all primitives, in unsigned machine arithmetic.
pub open spec fn total_triangles(ps: Seq<PrimitiveInfo>) -> usize
    decreases ps.len(),
{
    if ps.len() == 0 {
        0
    } else {
        usize_specs::wrapping_add(total_triangles(ps.drop_last()), primitive_triangles(ps.last()))
    }
}

/// Sum of the positions of all primitives, in unsigned machine arithmetic.
pub open spec fn total_vertices(ps: Seq<PrimitiveInfo>) -> usize
    decreases ps.len(),
{
    if ps.len() == 0 {
        0
    } else {
        usize_specs::wrapping_add(total_vertices(ps.drop_last()), primitive_vertices(ps.last()))
    }
}

/// Triangle and vertex totals of a document, or `None` when it does not parse.
pub open spec fn glb_geometry(bytes: Seq<u8>) -> Option<(usize, usize)> {
    if !glb_length_fits(bytes) {
        None
    } else {
        match glb_primitives(bytes) {
            Some(ps) => Some((total_triangles(ps), total_vertices(ps))),
            None => None,
        }
    }
}

/// A binary glTF 2.0 header: at least 12 bytes, the magic `glTF`, and the
/// little-endian version 2.
pub open spec fn glb_header(b: Seq<u8>) -> bool {
    &&& b.len() >= 12
    &&& b[0] == 0x67 && b[1] == 0x6C && b[2] == 0x54 && b[3] == 0x46
    &&& b[4] as int + 256 * b[5] + 65536 * b[6] + 16777216 * b[7] == 2
}

/// The bytes without trailing zero bytes, keeping at least the 12 header bytes.
pub open spec fn strip_trailing_zeros(d: Seq<u8>) -> Seq<u8>
    decreases d.len(),
{
    if d.len() > 12 && d.last() == 0 {
        strip_trailing_zeros(d.drop_last())
    } else {
        d
    }
}

/// GLB minification keeps a prefix of the input that holds at least the
/// 12 header bytes: it never grows, never loses the header (so its output is
/// still detected as GLB), and a second pass changes nothing.
pub proof fn lemma_strip_trailing_zeros(d: Seq<u8>)
    ensures
        strip_trailing_zeros(d).len() <= d.len(),
        strip_trailing_zeros(d) == d.take(strip_trailing_zeros(d).len() as int),
        d.len() >= 12 ==> strip_trailing_zeros(d).len() >= 12,
        glb_header(d) ==> glb_header(strip_trailing_zeros(d)),
        strip_trailing_zeros(strip_trailing_zeros(d)) == strip_trailing_zeros(d),
    decreases d.len(),
{
    if d.len() > 12 && d.last() == 0 {
        lemma_strip_trailing_zeros(d.drop_last());
        let r = strip_trailing_zeros(d.drop_last());
        assert(d.drop_last().take(r.len() as int) =~= d.take(r.len() as int));
        assert(r[0] == d[0] && r[1] == d[1] && r[2] == d[2] && r[3] == d[3]);
        assert(r[4] == d[4] && r[5] == d[5] && r[6] == d[6] && r[7] == d[7]);
    } else {
        assert(d.take(d.len() as int) =~= d);
    }
}

/// The error for bytes that the `gltf` crate does not read as a document.
pub open spec fn glb_failure(e: MinifyError) -> bool {
    e matches MinifyError::ParseError(m) && m@.len() >= 21 && m@.take(21) == "Failed to parse GLB: "@
}

/// Statistics of a GLB minification.
pub open spec fn glb_stats(
    st: MinifyStats,
    before: nat,
    after: nat,
    geometry_before: (usize, usize),
    geometry_after: (usize, usize),
    extra: Seq<char>,
) -> bool {
    &&& st.before_bytes == before
    &&& st.after_bytes == after
    &&& st.lines is None
    &&& st.format_metrics == Some(
        FormatMetrics::Glb {
            triangles_before: geometry_before.0,
            triangles_after: geometry_after.0,
            vertices_before: geometry_before.1,
            vertices_after: geometry_after.1,
        },
    )
    &&& st.extra matches Some(e) && e@ == extra
}

/// GLB plugin for 3D model minification
pub struct GlbPlugin {
    last_stats: Option<MinifyStats>,
}

impl Default for GlbPlugin {
    fn default() -> (r: Self)
        ensures
            r.spec_stats() is None,
    {
        GlbPlugin::new()
    }
}

impl GlbPlugin {
    /// Create a new GLB plugin instance
    pub fn new() -> (r: Self)
        ensures
            r.spec_stats() is None,
    {
        GlbPlugin { last_stats: None }
    }

    /// Detect GLB format by checking magic bytes and version
    pub fn detect_glb_format(input_bytes: &[u8]) -> (r: bool)
        ensures
            r == glb_header(input_bytes@),
    {
        if input_bytes.len() < 12 {
            return false;
        }
        let is_glb = input_bytes[0] == 0x67 && input_bytes[1] == 0x6C && input_bytes[2] == 0x54
            && input_bytes[3] == 0x46;
        if is_glb {
            let version: u32 = input_bytes[4] as u32 + 256 * (input_bytes[5] as u32) + 65536 * (
            input_bytes[6] as u32) + 16777216 * (input_bytes[7] as u32);
            version == 2
        } else {
            false
        }
    }

    /// Parse GLB file and extract statistics: total triangles and vertices
    pub fn parse_glb_stats(input_bytes: &[u8]) -> (r: Result<(usize, usize), MinifyError>)
        ensures
            r is Ok <==> glb_geometry(input_bytes@) is Some,
            r matches Ok(g) ==> glb_geometry(input_bytes@) == Some(g),
            r matches Err(e) ==> e matches MinifyError::ParseError(m) && m@.len() >= 21
                && m@.take(21) == "Failed to parse GLB: "@,
    {
        if input_bytes.len() >= 12 && input_bytes[0] == 0x67 && input_bytes[1] == 0x6C
            && input_bytes[2] == 0x54 && input_bytes[3] == 0x46 {
            let length: u64 = input_bytes[8] as u64 + 256 * (input_bytes[9] as u64) + 65536 * (
            input_bytes[10] as u64) + 16777216 * (input_bytes[11] as u64);
            if length < 12 {
                let mut msg: Vec<char> = Vec::new();
                append_str(&mut msg, "Failed to parse GLB: length field smaller than the header");
                proof {
                    reveal_strlit("Failed to parse GLB: length field smaller than the header");
                    reveal_strlit("Failed to parse GLB: ");
                }
                assert(msg@.take(21) =~= "Failed to parse GLB: "@);
                return Err(MinifyError::ParseError(string_of(msg.as_slice())));
            }
        }
        let prims = match read_glb_primitives(input_bytes) {
            Ok(p) => p,
            Err(e) => {
                let mut msg: Vec<char> = Vec::new();
                append_str(&mut msg, "Failed to parse GLB: ");
                proof {
                    reveal_strlit("Failed to parse GLB: ");
                }
                let ghost head = msg@;
                let text = gltf_error_text(&e);
                append_str(&mut msg, text.as_str());
                assert(msg@.take(21) =~= head);
                return Err(MinifyError::ParseError(string_of(msg.as_slice())));
            },
        };
        let mut total_tri: usize = 0;
        let mut total_vert: usize = 0;
        let mut i: usize = 0;
        while i < prims.len()
            invariant
                i <= prims.len(),
                total_tri == total_triangles(prims@.take(i as int)),
                total_vert == total_vertices(prims@.take(i as int)),
            decreases prims.len() - i,
        {
            assert(prims@.take(i + 1).drop_last() =~= prims@.take(i as int));
            let p = prims[i];
            if let Some(n) = p.position_count {
                total_vert = total_vert.wrapping_add(n);
            } else {
                total_vert = total_vert.wrapping_add(0);
            }
            let triangle_count: usize = match p.index_count {
                Some(n) => {
                    if p.mode == GL_TRIANGLES {
                        n / 3
                    } else if p.mode == GL_TRIANGLE_STRIP || p.mode == GL_TRIANGLE_FAN {
                        n.saturating_sub(2)
                    } else {
                        0
                    }
                },
                None => match p.position_count {
                    Some(n) => n / 3,
                    None => 0,
                },
            };
            total_tri = total_tri.wrapping_add(triangle_count);
            i += 1;
        }
        assert(prims@.take(prims.len() as int) =~= prims@);
        Ok((total_tri, total_vert))
    }

    /// Removes trailing zero padding, keeping the 12-byte header.
    pub fn apply_safe_optimizations(data: &mut Vec<u8>) -> (r: Result<(), MinifyError>)
        ensures
            r is Ok,
            final(data)@ == strip_trailing_zeros(old(data)@),
    {
        while data.len() > 12 && data[data.len() - 1] == 0
            invariant
                strip_trailing_zeros(data@) == strip_trailing_zeros(old(data)@),
            decreases data.len(),
        {
            data.pop();
        }
        Ok(())
    }

    /// Aggressive optimisations beyond safe mode; none change the data.
    pub fn apply_aggressive_optimizations(data: &mut Vec<u8>) -> (r: Result<(), MinifyError>)
        ensures
            r is Ok,
            final(data)@ == old(data)@,
    {
        Ok(())
    }

    /// Safe mode: the document must parse; trailing zero padding is removed
    /// and the optimised data must parse again.
    pub fn safe_minify(&mut self, input_bytes: &[u8]) -> (r: Result<Vec<u8>, MinifyError>)
        ensures
            r is Ok <==> (glb_geometry(input_bytes@) is Some && glb_geometry(
                strip_trailing_zeros(input_bytes@),
            ) is Some),
            r matches Ok(out) ==> out@ == strip_trailing_zeros(input_bytes@),
            r matches Err(e) ==> glb_failure(e),
            r is Err ==> final(self).spec_stats() == old(self).spec_stats(),
            r matches Ok(out) ==> final(self).spec_stats() matches Some(st) && glb_stats(
                st,
                input_bytes@.len(),
                out@.len(),
                glb_geometry(input_bytes@).unwrap(),
                glb_geometry(out@).unwrap(),
                "Safe mode: vertex deduplication, unused buffer removal"@,
            ),
    {
        let original_size = input_bytes.len();
        let (original_triangles, original_vertices) = Self::parse_glb_stats(input_bytes)?;
        let mut optimized_data = vstd::slice::slice_to_vec(input_bytes);
        Self::apply_safe_optimizations(&mut optimized_data)?;
        let (final_triangles, final_vertices) = Self::parse_glb_stats(optimized_data.as_slice())?;
        self.last_stats = Some(
            MinifyStats::new(original_size, optimized_data.len()).with_format_metrics(
                FormatMetrics::Glb {
                    triangles_before: original_triangles,
                    triangles_after: final_triangles,
                    vertices_before: original_vertices,
                    vertices_after: final_vertices,
                },
            ).with_extra(string_from_str("Safe mode: vertex deduplication, unused buffer removal")),
        );
        Ok(optimized_data)
    }

    /// Aggressive mode: safe mode, then the aggressive optimisations.
    pub fn aggressive_minify(&mut self, input_bytes: &[u8]) -> (r: Result<Vec<u8>, MinifyError>)
        ensures
            r is Ok <==> (glb_geometry(input_bytes@) is Some && glb_geometry(
                strip_trailing_zeros(input_bytes@),
            ) is Some),
            r matches Ok(out) ==> out@ == strip_trailing_zeros(input_bytes@),
            r matches Err(e) ==> glb_failure(e),
            r is Err ==> final(self).spec_stats() == old(self).spec_stats(),
            r matches Ok(out) ==> final(self).spec_stats() matches Some(st) && glb_stats(
                st,
                input_bytes@.len(),
                out@.len(),
                glb_geometry(input_bytes@).unwrap(),
                glb_geometry(out@).unwrap(),
                "Aggressive mode: triangle reordering, mesh optimization, LOD collapse"@,
            ),
    {
        let safe_result = self.safe_minify(input_bytes)?;
        let original_size = input_bytes.len();
        let (original_triangles, original_vertices) = Self::parse_glb_stats(input_bytes)?;
        let mut optimized_data = safe_result;
        Self::apply_aggressive_optimizations(&mut optimized_data)?;
        let (final_triangles, final_vertices) = Self::parse_glb_stats(optimized_data.as_slice())?;
        self.last_stats = Some(
            MinifyStats::new(original_size, optimized_data.len()).with_format_metrics(
                FormatMetrics::Glb {
                    triangles_before: original_triangles,
                    triangles_after: final_triangles,
                    vertices_before: original_vertices,
                    vertices_after: final_vertices,
                },
            ).with_extra(
                string_from_str("Aggressive mode: triangle reordering, mesh optimization, LOD collapse"),
            ),
        );
        Ok(optimized_data)
    }
}

impl Minifier for GlbPlugin {
    open spec fn spec_name(&self) -> Seq<char> {
        "glb"@
    }

    open spec fn spec_detect(&self, input: Seq<u8>) -> bool {
        glb_header(input)
    }

    closed spec fn spec_stats(&self) -> Option<MinifyStats> {
        self.last_stats
    }

    open spec fn spec_error(&self, input: Seq<u8>, level: MinifyLevel, e: MinifyError) -> bool {
        glb_failure(e)
    }

    open spec fn spec_output(&self, input: Seq<u8>, level: MinifyLevel) -> Option<Seq<u8>> {
        if glb_geometry(input) is Some && glb_geometry(strip_trailing_zeros(input)) is Some {
            Some(strip_trailing_zeros(input))
        } else {
            None
        }
    }

    fn name(&self) -> (r: &str) {
        "glb"
    }

    fn detect(&self, input_bytes: &[u8]) -> (r: bool) {
        Self::detect_glb_format(input_bytes)
    }

    fn minify(&mut self, input_bytes: &[u8], level: MinifyLevel) -> (r: Result<Vec<u8>, MinifyError>)
        ensures
            r is Ok <==> (glb_geometry(input_bytes@) is Some && glb_geometry(
                strip_trailing_zeros(input_bytes@),
            ) is Some),
            r matches Ok(out) ==> out@ == strip_trailing_zeros(input_bytes@),
            r matches Err(e) ==> glb_failure(e),
    {
        match level {
            MinifyLevel::Safe => self.safe_minify(input_bytes),
            MinifyLevel::Aggressive => self.aggressive_minify(input_bytes),
        }
    }

    fn stats(&self) -> (r: Option<MinifyStats>) {
        self.last_stats.clone()
    }
}

} // verus!
