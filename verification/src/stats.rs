//! Minification statistics and the report that describes them.

use vstd::prelude::*;
use crate::strings::string_of;
use crate::text::{append, append_str, decimal, digit, digit_char, join, join_parts, push_decimal};

verus! {

/// Format-specific metrics for different file types
#[derive(Debug, Clone, Copy, PartialEq, Eq, Structural)]
pub enum FormatMetrics {
    /// JavaScript/TypeScript metrics
    JavaScript { identifiers_renamed: usize, functions_inlined: usize, dead_code_removed: usize },
    /// CSS metrics
    Css { selectors_merged: usize, rules_removed: usize, properties_collapsed: usize },
    /// HTML metrics
    Html { tags_removed: usize, attributes_collapsed: usize, comments_removed: usize },
    /// 3D model metrics
    Glb {
        triangles_before: usize,
        triangles_after: usize,
        vertices_before: usize,
        vertices_after: usize,
    },
    /// Rust code metrics
    Rust { imports_removed: usize, identifiers_renamed: usize, expressions_collapsed: usize },
    /// C code metrics
    C {
        macros_inlined: usize,
        debug_statements_removed: usize,
        preprocessor_directives_collapsed: usize,
    },
    /// C++ code metrics
    Cpp { templates_inlined: usize, includes_optimized: usize, namespaces_collapsed: usize },
    /// Java code metrics
    Java { imports_optimized: usize, debug_code_removed: usize, constants_inlined: usize },
}

/// Statistics about minification results
#[derive(Debug, PartialEq)]
pub struct MinifyStats {
    /// Original file size in bytes
    pub before_bytes: usize,
    /// Minified file size in bytes
    pub after_bytes: usize,
    /// Format-specific metrics (e.g., "lines: 100 -> 50, identifiers renamed: 25")
    pub extra: Option<String>,
    /// Line count statistics (before, after)
    pub lines: Option<(usize, usize)>,
    /// Format-specific counts (e.g., triangles for 3D models, selectors for CSS)
    pub format_metrics: Option<FormatMetrics>,
}

impl Clone for MinifyStats {
    fn clone(&self) -> (r: Self)
        ensures
            r == *self,
    {
        let extra = match &self.extra {
            Some(s) => Some(s.clone()),
            None => None,
        };
        MinifyStats {
            before_bytes: self.before_bytes,
            after_bytes: self.after_bytes,
            extra,
            lines: self.lines,
            format_metrics: self.format_metrics,
        }
    }
}

impl MinifyStats {
    /// Create new stats with before and after byte counts
    pub fn new(before_bytes: usize, after_bytes: usize) -> (r: Self)
        ensures
            r == (MinifyStats {
                before_bytes,
                after_bytes,
                extra: None,
                lines: None,
                format_metrics: None,
            }),
    {
        MinifyStats { before_bytes, after_bytes, extra: None, lines: None, format_metrics: None }
    }

    /// Add format-specific extra information
    pub fn with_extra(self, extra: String) -> (r: Self)
        ensures
            r == (MinifyStats { extra: Some(extra), ..self }),
    {
        MinifyStats { extra: Some(extra), ..self }
    }

    /// Add line count statistics
    pub fn with_lines(self, before_lines: usize, after_lines: usize) -> (r: Self)
        ensures
            r == (MinifyStats { lines: Some((before_lines, after_lines)), ..self }),
    {
        MinifyStats { lines: Some((before_lines, after_lines)), ..self }
    }

    /// Add format-specific metrics
    pub fn with_format_metrics(self, metrics: FormatMetrics) -> (r: Self)
        ensures
            r == (MinifyStats { format_metrics: Some(metrics), ..self }),
    {
        MinifyStats { format_metrics: Some(metrics), ..self }
    }

    /// Calculate bytes saved
    pub fn bytes_saved(&self) -> (r: usize)
        ensures
            r == if self.before_bytes >= self.after_bytes {
                self.before_bytes - self.after_bytes
            } else {
                0
            },
    {
        self.before_bytes.saturating_sub(self.after_bytes)
    }

    /// Get lines saved count
    pub fn lines_saved(&self) -> (r: Option<usize>)
        ensures
            r == match self.lines {
                Some((before, after)) => Some(
                    if before >= after {
                        (before - after) as usize
                    } else {
                        0usize
                    },
                ),
                None => None,
            },
    {
        match self.lines {
            Some((before, after)) => Some(before.saturating_sub(after)),
            None => None,
        }
    }
}

/// One decimal place of a number given in tenths.
pub open spec fn tenths_text(t: nat) -> Seq<char> {
    decimal(t / 10) + "."@ + seq![digit_char((t % 10) as int)]
}

/// `part / whole` in tenths of a percent, rounded to the nearest tenth.
/// A tie goes to the even neighbour when it is a binary fraction (its
/// numerator in twentieths is a multiple of 125), as `{:.1}` rounds such an
/// exactly represented value; any other tie has no exact floating-point
/// value and goes up.
pub open spec fn rounded_tenths(part: nat, whole: nat) -> nat {
    let q = (1000 * part) / whole;
    let r = (1000 * part) % whole;
    if 2 * r > whole || (2 * r == whole && (q % 2 == 1 || (2 * q + 1) % 125 != 0)) {
        q + 1
    } else {
        q
    }
}

/// `part / whole` as a percentage with one decimal place; `NaN` for `0 / 0`.
pub open spec fn percent_text(part: nat, whole: nat) -> Seq<char> {
    if whole == 0 {
        "NaN"@
    } else {
        tenths_text(rounded_tenths(part, whole))
    }
}

/// The reduction from `before` to `after` as a percentage of `before`, and
/// `0.0` when `before` is zero.
pub open spec fn reduction_text(before: nat, after: nat) -> Seq<char> {
    if before == 0 {
        "0.0"@
    } else {
        percent_text((before - after) as nat, before)
    }
}

/// A count line of the report, present only when the count is positive.
pub open spec fn count_part(label: Seq<char>, n: usize) -> Seq<Seq<char>> {
    if n > 0 {
        seq![label + decimal(n as nat)]
    } else {
        Seq::empty()
    }
}

/// A `before → after (p% reduction)` line of the report.
pub open spec fn change_part(label: Seq<char>, before: nat, after: nat) -> Seq<char> {
    label + decimal(before) + " → "@ + decimal(after) + " ("@ + percent_text(
        (before - after) as nat,
        before,
    ) + "% reduction)"@
}

/// The report lines of format-specific metrics.
pub open spec fn metric_parts(m: FormatMetrics) -> Seq<Seq<char>> {
    match m {
        FormatMetrics::JavaScript { identifiers_renamed, functions_inlined, dead_code_removed } =>
            count_part("Identifiers renamed: "@, identifiers_renamed) + count_part(
            "Functions inlined: "@,
            functions_inlined,
        ) + count_part("Dead code blocks removed: "@, dead_code_removed),
        FormatMetrics::Css { selectors_merged, rules_removed, properties_collapsed } => count_part(
            "Selectors merged: "@,
            selectors_merged,
        ) + count_part("Rules removed: "@, rules_removed) + count_part(
            "Properties collapsed: "@,
            properties_collapsed,
        ),
        FormatMetrics::Html { tags_removed, attributes_collapsed, comments_removed } => count_part(
            "Tags removed: "@,
            tags_removed,
        ) + count_part("Attributes collapsed: "@, attributes_collapsed) + count_part(
            "Comments removed: "@,
            comments_removed,
        ),
        FormatMetrics::Glb { triangles_before, triangles_after, vertices_before, vertices_after } =>
            seq![
            change_part("Triangles: "@, triangles_before as nat, triangles_after as nat),
            change_part("Vertices: "@, vertices_before as nat, vertices_after as nat),
        ],
        FormatMetrics::Rust { imports_removed, identifiers_renamed, expressions_collapsed } =>
            count_part("Imports removed: "@, imports_removed) + count_part(
            "Identifiers renamed: "@,
            identifiers_renamed,
        ) + count_part("Expressions collapsed: "@, expressions_collapsed),
        FormatMetrics::C {
            macros_inlined,
            debug_statements_removed,
            preprocessor_directives_collapsed,
        } => count_part("Macros inlined: "@, macros_inlined) + count_part(
            "Debug statements removed: "@,
            debug_statements_removed,
        ) + count_part(
            "Preprocessor directives collapsed: "@,
            preprocessor_directives_collapsed,
        ),
        FormatMetrics::Cpp { templates_inlined, includes_optimized, namespaces_collapsed } =>
            count_part("Templates inlined: "@, templates_inlined) + count_part(
            "Includes optimized: "@,
            includes_optimized,
        ) + count_part("Namespaces collapsed: "@, namespaces_collapsed),
        FormatMetrics::Java { imports_optimized, debug_code_removed, constants_inlined } =>
            count_part("Imports optimized: "@, imports_optimized) + count_part(
            "Debug code removed: "@,
            debug_code_removed,
        ) + count_part("Constants inlined: "@, constants_inlined),
    }
}

/// The lines of the report, in order: sizes, savings, lines, format metrics,
/// extra information.
pub open spec fn report_parts(st: MinifyStats) -> Seq<Seq<char>> {
    let saved = if st.before_bytes >= st.after_bytes {
        (st.before_bytes - st.after_bytes) as nat
    } else {
        0
    };
    let base = seq![
        "Size: "@ + decimal(st.before_bytes as nat) + " → "@ + decimal(st.after_bytes as nat)
            + " bytes"@,
        "Saved: "@ + decimal(saved) + " bytes ("@ + reduction_text(
            st.before_bytes as nat,
            st.after_bytes as nat,
        ) + "%)"@,
    ];
    let with_lines = match st.lines {
        Some((b, a)) => base.push(
            "Lines: "@ + decimal(b as nat) + " → "@ + decimal(a as nat) + " ("@ + reduction_text(
                b as nat,
                a as nat,
            ) + "% reduction)"@,
        ),
        None => base,
    };
    let with_metrics = match st.format_metrics {
        Some(m) => with_lines + metric_parts(m),
        None => with_lines,
    };
    match st.extra {
        Some(e) => with_metrics.push(e@),
        None => with_metrics,
    }
}

/// The report: its lines joined with `", "`.
pub open spec fn report_text(st: MinifyStats) -> Seq<char> {
    join(report_parts(st), ", "@)
}

/// The statistics the report can describe: no count grows from a non-zero
/// start, since a reduction is computed by subtracting the new count from
/// the old one (a zero start reports 0.0%), and the GLB counts never grow.
pub open spec fn reportable(st: MinifyStats) -> bool {
    &&& st.before_bytes > 0 ==> st.after_bytes <= st.before_bytes
    &&& st.lines matches Some((b, a)) ==> (b > 0 ==> a <= b)
    &&& st.format_metrics matches Some(
        FormatMetrics::Glb { triangles_before, triangles_after, vertices_before, vertices_after },
    ) ==> triangles_after <= triangles_before && vertices_after <= vertices_before
}

pub open spec fn part_views(v: Seq<Vec<char>>) -> Seq<Seq<char>> {
    v.map_values(|p: Vec<char>| p@)
}

fn push_part(parts: &mut Vec<Vec<char>>, part: Vec<char>)
    ensures
        part_views(final(parts)@) == part_views(old(parts)@).push(part@),
{
    parts.push(part);
    assert(part_views(parts@) =~= part_views(old(parts)@).push(part@));
}

fn push_count(parts: &mut Vec<Vec<char>>, label: &str, n: usize)
    ensures
        part_views(final(parts)@) == part_views(old(parts)@) + count_part(label@, n),
{
    if n > 0 {
        let mut line: Vec<char> = Vec::new();
        append_str(&mut line, label);
        push_decimal(&mut line, n);
        push_part(parts, line);
        assert(part_views(parts@) =~= part_views(old(parts)@) + count_part(label@, n));
    } else {
        assert(part_views(parts@) =~= part_views(old(parts)@) + count_part(label@, n));
    }
}

/// Appends a number of tenths with one decimal place.
fn push_tenths(out: &mut Vec<char>, t: usize)
    ensures
        final(out)@ == old(out)@ + tenths_text(t as nat),
{
    push_decimal(out, t / 10);
    append_str(out, ".");
    out.push(digit(t % 10));
    proof {
        reveal_strlit(".");
    }
    assert(out@ =~= old(out)@ + tenths_text(t as nat));
}

/// Appends `part / whole` as a percentage with one decimal place.
pub fn push_percent(out: &mut Vec<char>, part: usize, whole: usize)
    requires
        part <= whole,
    ensures
        final(out)@ == old(out)@ + percent_text(part as nat, whole as nat),
{
    if whole == 0 {
        append_str(out, "NaN");
    } else {
        let num: u128 = 1000 * (part as u128);
        let w: u128 = whole as u128;
        let q: u128 = num / w;
        let r: u128 = num % w;
        assert(q <= 1000 && (q == 1000 ==> r == 0)) by (nonlinear_arith)
            requires
                num == 1000 * (part as u128),
                w == whole as u128,
                q == num / w,
                r == num % w,
                part <= whole,
                whole > 0,
        ;
        let t: u128 = if 2 * r > w || (2 * r == w && (q % 2 == 1 || (2 * q + 1) % 125 != 0)) {
            q + 1
        } else {
            q
        };
        assert(t == rounded_tenths(part as nat, whole as nat));
        push_tenths(out, t as usize);
    }
}

fn push_reduction(out: &mut Vec<char>, before: usize, after: usize)
    requires
        before > 0 ==> after <= before,
    ensures
        final(out)@ == old(out)@ + reduction_text(before as nat, after as nat),
{
    if before == 0 {
        append_str(out, "0.0");
    } else {
        push_percent(out, before - after, before);
    }
}

fn change_line(label: &str, before: usize, after: usize) -> (r: Vec<char>)
    requires
        after <= before,
    ensures
        r@ == change_part(label@, before as nat, after as nat),
{
    let mut line: Vec<char> = Vec::new();
    append_str(&mut line, label);
    push_decimal(&mut line, before);
    append_str(&mut line, " → ");
    push_decimal(&mut line, after);
    append_str(&mut line, " (");
    push_percent(&mut line, before - after, before);
    append_str(&mut line, "% reduction)");
    line
}

fn push_metrics(parts: &mut Vec<Vec<char>>, m: FormatMetrics)
    requires
        m matches FormatMetrics::Glb { triangles_before, triangles_after, vertices_before, vertices_after }
            ==> triangles_after <= triangles_before && vertices_after <= vertices_before,
    ensures
        part_views(final(parts)@) == part_views(old(parts)@) + metric_parts(m),
{
    let ghost start = part_views(parts@);
    match m {
        FormatMetrics::JavaScript { identifiers_renamed, functions_inlined, dead_code_removed } => {
            push_count(parts, "Identifiers renamed: ", identifiers_renamed);
            push_count(parts, "Functions inlined: ", functions_inlined);
            push_count(parts, "Dead code blocks removed: ", dead_code_removed);
        },
        FormatMetrics::Css { selectors_merged, rules_removed, properties_collapsed } => {
            push_count(parts, "Selectors merged: ", selectors_merged);
            push_count(parts, "Rules removed: ", rules_removed);
            push_count(parts, "Properties collapsed: ", properties_collapsed);
        },
        FormatMetrics::Html { tags_removed, attributes_collapsed, comments_removed } => {
            push_count(parts, "Tags removed: ", tags_removed);
            push_count(parts, "Attributes collapsed: ", attributes_collapsed);
            push_count(parts, "Comments removed: ", comments_removed);
        },
        FormatMetrics::Glb { triangles_before, triangles_after, vertices_before, vertices_after } => {
            push_part(parts, change_line("Triangles: ", triangles_before, triangles_after));
            push_part(parts, change_line("Vertices: ", vertices_before, vertices_after));
        },
        FormatMetrics::Rust { imports_removed, identifiers_renamed, expressions_collapsed } => {
            push_count(parts, "Imports removed: ", imports_removed);
            push_count(parts, "Identifiers renamed: ", identifiers_renamed);
            push_count(parts, "Expressions collapsed: ", expressions_collapsed);
        },
        FormatMetrics::C {
            macros_inlined,
            debug_statements_removed,
            preprocessor_directives_collapsed,
        } => {
            push_count(parts, "Macros inlined: ", macros_inlined);
            push_count(parts, "Debug statements removed: ", debug_statements_removed);
            push_count(
                parts,
                "Preprocessor directives collapsed: ",
                preprocessor_directives_collapsed,
            );
        },
        FormatMetrics::Cpp { templates_inlined, includes_optimized, namespaces_collapsed } => {
            push_count(parts, "Templates inlined: ", templates_inlined);
            push_count(parts, "Includes optimized: ", includes_optimized);
            push_count(parts, "Namespaces collapsed: ", namespaces_collapsed);
        },
        FormatMetrics::Java { imports_optimized, debug_code_removed, constants_inlined } => {
            push_count(parts, "Imports optimized: ", imports_optimized);
            push_count(parts, "Debug code removed: ", debug_code_removed);
            push_count(parts, "Constants inlined: ", constants_inlined);
        },
    }
    assert(part_views(parts@) =~= start + metric_parts(m));
}

impl MinifyStats {
    /// Whether the report can describe these statistics.
    pub fn is_reportable(&self) -> (r: bool)
        ensures
            r == reportable(*self),
    {
        if self.before_bytes > 0 && self.after_bytes > self.before_bytes {
            return false;
        }
        if let Some((b, a)) = self.lines {
            if b > 0 && a > b {
                return false;
            }
        }
        if let Some(FormatMetrics::Glb { triangles_before, triangles_after, vertices_before, vertices_after }) = self.format_metrics {
            if triangles_after > triangles_before || vertices_after > vertices_before {
                return false;
            }
        }
        true
    }
}

impl MinifyStats {
    /// Generate a comprehensive statistics report: sizes and savings, line
    /// counts, format-specific metrics and extra information, joined with
    /// `", "`.
    pub fn generate_report(&self) -> (r: String)
        requires
            reportable(*self),
        ensures
            r@ == report_text(*self),
    {
        let mut parts: Vec<Vec<char>> = Vec::new();
        let mut size: Vec<char> = Vec::new();
        append_str(&mut size, "Size: ");
        push_decimal(&mut size, self.before_bytes);
        append_str(&mut size, " → ");
        push_decimal(&mut size, self.after_bytes);
        append_str(&mut size, " bytes");
        push_part(&mut parts, size);
        let mut saved: Vec<char> = Vec::new();
        append_str(&mut saved, "Saved: ");
        push_decimal(&mut saved, self.bytes_saved());
        append_str(&mut saved, " bytes (");
        push_reduction(&mut saved, self.before_bytes, self.after_bytes);
        append_str(&mut saved, "%)");
        push_part(&mut parts, saved);
        if let Some((before_lines, after_lines)) = self.lines {
            let mut line: Vec<char> = Vec::new();
            append_str(&mut line, "Lines: ");
            push_decimal(&mut line, before_lines);
            append_str(&mut line, " → ");
            push_decimal(&mut line, after_lines);
            append_str(&mut line, " (");
            push_reduction(&mut line, before_lines, after_lines);
            append_str(&mut line, "% reduction)");
            push_part(&mut parts, line);
        }
        if let Some(metrics) = self.format_metrics {
            push_metrics(&mut parts, metrics);
        }
        if let Some(extra) = &self.extra {
            let mut e: Vec<char> = Vec::new();
            append_str(&mut e, extra.as_str());
            push_part(&mut parts, e);
        }
        assert(part_views(parts@) =~= report_parts(*self));
        let text = join_parts(&parts, ", ");
        string_of(text.as_slice())
    }
}

} // verus!
