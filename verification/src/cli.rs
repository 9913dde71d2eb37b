//! The command-line front end as values: its arguments, the application
//! that owns the plugin registry, and the decisions taken between reading
//! the input file and writing the output file.

use vstd::prelude::*;
use crate::css::CSSPlugin;
use crate::glb::GlbPlugin;
use crate::html::HTMLPlugin;
use crate::js::JavaScriptPlugin;
use crate::minifier::{describes, Minifier, MinifyError, MinifyLevel};
use crate::path::{default_output_path, default_output_path_of};
use crate::registry::{
    first_named_from, format_plugin_name, plugin_names, selected_plugin, FormatOverride,
    PluginRegistry,
};
use crate::safety::MAX_FILE_SIZE;
use crate::stats::{percent_text, report_text, reportable, MinifyStats};
use crate::strings::{chars_of, string_of};
use crate::text::{append_str, decimal, join, join_parts, push_decimal, push_decimal_u64, string_from_str};

verus! {

/// Command-line arguments: the input file, the optimisation flags, whether
/// to show statistics, an optional format override and output path.
pub struct Args {
    /// Input file to minify
    pub input: String,
    /// Use safe minification mode (default)
    pub safe: bool,
    /// Use aggressive minification mode
    pub aggressive: bool,
    /// Display detailed minification statistics
    pub stats: bool,
    /// Override format detection and use specified format
    pub format: Option<FormatOverride>,
    /// Output file path (default: input.min.ext)
    pub output: Option<String>,
}

/// The level that the flags select: aggressive when asked for, safe otherwise.
pub open spec fn level_for(aggressive: bool) -> MinifyLevel {
    if aggressive {
        MinifyLevel::Aggressive
    } else {
        MinifyLevel::Safe
    }
}

/// The output path: the one given, or the default one for the input.
pub open spec fn output_path_for(input: Seq<char>, output: Option<String>) -> Seq<char> {
    match output {
        Some(o) => o@,
        None => default_output_path(input),
    }
}

impl Args {
    /// Get the minification level based on flags
    pub fn get_minify_level(&self) -> (r: MinifyLevel)
        ensures
            r == level_for(self.aggressive),
    {
        if self.aggressive {
            MinifyLevel::Aggressive
        } else {
            MinifyLevel::Safe
        }
    }

    /// Get the output file path based on input and --output flag
    pub fn get_output_path(&self) -> (r: String)
        ensures
            r@ == output_path_for(self.input@, self.output),
    {
        match &self.output {
            Some(output) => output.clone(),
            None => self.generate_default_output_path(),
        }
    }

    /// Generate default output path by inserting .min before the extension
    fn generate_default_output_path(&self) -> (r: String)
        ensures
            r@ == default_output_path(self.input@),
    {
        let input = chars_of(self.input.as_str());
        let out = default_output_path_of(input.as_slice());
        string_of(out.as_slice())
    }
}

/// The plugin that handles an input: the one named by the format override
/// when there is one, otherwise the first that detects the input.
pub open spec fn chosen_plugin(
    ps: Seq<(Box<dyn Minifier>,)>,
    format: Option<FormatOverride>,
    input: Seq<u8>,
) -> Option<int> {
    match format {
        Some(f) => first_named_from(ps, format_plugin_name(f), 0),
        None => selected_plugin(ps, input),
    }
}

/// The message of the error that reports a failed plugin.
pub open spec fn plugin_failure_text(name: Seq<char>, error_text: Seq<char>) -> Seq<char> {
    "Plugin '"@ + name + "' failed: "@ + error_text
}

/// The error that reports that the named plugin failed with `error`.
pub fn plugin_failure(name: &str, error: &MinifyError) -> (r: MinifyError)
    ensures
        r matches MinifyError::PluginError(m) && exists|t: Seq<char>|
            describes(*error, t) && m@ == plugin_failure_text(name@, t),
{
    let text = error.message();
    let mut out: Vec<char> = Vec::new();
    append_str(&mut out, "Plugin '");
    append_str(&mut out, name);
    append_str(&mut out, "' failed: ");
    append_str(&mut out, text.as_str());
    let m = string_of(out.as_slice());
    assert(describes(*error, text@) && m@ == plugin_failure_text(name@, text@));
    MinifyError::PluginError(m)
}

/// The lines that show the statistics of a minification: the plugin and the
/// paths, then the plugin's report, or without one the byte counts and the
/// bytes saved.
pub open spec fn stats_lines_text(
    plugin: Seq<char>,
    input_path: Seq<char>,
    output_path: Seq<char>,
    stats: Option<MinifyStats>,
    before: nat,
    after: nat,
) -> Seq<Seq<char>> {
    let head = seq![
        "=== Minification Statistics ==="@,
        "Plugin: "@ + plugin,
        "Input: "@ + input_path,
        "Output: "@ + output_path,
    ];
    let body = match stats {
        Some(st) => seq![report_text(st)],
        None => {
            let saved: nat = if after <= before { (before - after) as nat } else { 0 };
            seq![
                "Before: "@ + decimal(before) + " bytes"@,
                "After: "@ + decimal(after) + " bytes"@,
                "Saved: "@ + decimal(saved) + " bytes ("@ + (if before > 0 {
                    percent_text(saved, before)
                } else {
                    "0.0"@
                }) + "%)"@,
            ]
        },
    };
    head + body + seq!["==============================="@]
}

pub open spec fn string_views(v: Seq<String>) -> Seq<Seq<char>> {
    v.map_values(|s: String| s@)
}

fn push_line(lines: &mut Vec<String>, line: String)
    ensures
        string_views(final(lines)@) == string_views(old(lines)@).push(line@),
{
    lines.push(line);
    assert(string_views(lines@) =~= string_views(old(lines)@).push(line@));
}

fn labelled(label: &str, value: &str) -> (r: String)
    ensures
        r@ == label@ + value@,
{
    let mut out: Vec<char> = Vec::new();
    append_str(&mut out, label);
    append_str(&mut out, value);
    string_of(out.as_slice())
}

fn count_line(label: &str, n: usize) -> (r: String)
    ensures
        r@ == label@ + decimal(n as nat) + " bytes"@,
{
    let mut out: Vec<char> = Vec::new();
    append_str(&mut out, label);
    push_decimal(&mut out, n);
    append_str(&mut out, " bytes");
    string_of(out.as_slice())
}

/// The statistics display of a minification.
pub fn stats_lines(
    plugin: &str,
    input_path: &str,
    output_path: &str,
    stats: &Option<MinifyStats>,
    before: usize,
    after: usize,
) -> (r: Vec<String>)
    requires
        *stats matches Some(st) ==> reportable(st),
    ensures
        string_views(r@) == stats_lines_text(
            plugin@,
            input_path@,
            output_path@,
            *stats,
            before as nat,
            after as nat,
        ),
{
    let mut lines: Vec<String> = Vec::new();
    push_line(&mut lines, string_from_str("=== Minification Statistics ==="));
    push_line(&mut lines, labelled("Plugin: ", plugin));
    push_line(&mut lines, labelled("Input: ", input_path));
    push_line(&mut lines, labelled("Output: ", output_path));
    match stats {
        Some(st) => {
            push_line(&mut lines, st.generate_report());
        },
        None => {
            push_line(&mut lines, count_line("Before: ", before));
            push_line(&mut lines, count_line("After: ", after));
            let saved: usize = if after <= before {
                before - after
            } else {
                0
            };
            let mut out: Vec<char> = Vec::new();
            append_str(&mut out, "Saved: ");
            push_decimal(&mut out, saved);
            append_str(&mut out, " bytes (");
            if before > 0 {
                crate::stats::push_percent(&mut out, saved, before);
            } else {
                append_str(&mut out, "0.0");
            }
            append_str(&mut out, "%)");
            push_line(&mut lines, string_of(out.as_slice()));
        },
    }
    push_line(&mut lines, string_from_str("==============================="));
    assert(string_views(lines@) =~= stats_lines_text(
        plugin@,
        input_path@,
        output_path@,
        *stats,
        before as nat,
        after as nat,
    ));
    lines
}

/// The advice shown after an error: what the error means and what to try.
/// An unsupported format lists the registered plugins by name.
pub open spec fn error_help_text(e: MinifyError, names: Seq<Seq<char>>) -> Seq<Seq<char>> {
    match e {
        MinifyError::UnsupportedFormat => seq!["No plugin available to handle this file format."@]
            + if names.len() == 0 {
            seq![
                "No plugins are currently registered. Plugins will be available once implemented."@,
            ]
        } else {
            seq![
                "Available plugins: "@ + join(names, ", "@),
                "Try using --format flag to override auto-detection."@,
            ]
        },
        MinifyError::FileNotFound(_) => seq![
            "Check that the input file exists and the path is correct."@,
        ],
        MinifyError::PermissionError(_) => seq![
            "Check file and directory permissions."@,
            "Ensure you have read access to the input file and write access to the output directory."@,
        ],
        MinifyError::MemoryLimitExceeded(_) => seq![
            "The file is too large to process safely."@,
            "Maximum supported file size is "@ + decimal((MAX_FILE_SIZE / 1048576u64) as nat)
                + " MB."@,
            "Consider splitting the file or processing it in smaller chunks."@,
        ],
        MinifyError::ParseError(_) => seq![
            "The file contains syntax errors or is corrupted."@,
            "Verify the file is valid and try again."@,
        ],
        MinifyError::PluginError(_) => seq![
            "The minification plugin encountered an error."@,
            "This may indicate a bug in the plugin or unsupported syntax."@,
        ],
        MinifyError::BackupError(_) => seq![
            "Failed to create or manage file backup."@,
            "Check available disk space and file permissions."@,
        ],
        MinifyError::OutputExists(_) => seq![
            "Output file already exists."@,
            "Use --output flag to specify a different output path."@,
        ],
        MinifyError::IoError(_) => seq![
            "A file system error occurred."@,
            "Check file permissions, disk space, and file system integrity."@,
        ],
    }
}

fn push_text(lines: &mut Vec<String>, text: &str)
    ensures
        string_views(final(lines)@) == string_views(old(lines)@).push(text@),
{
    push_line(lines, string_from_str(text));
}

/// Main application logic
pub struct App {
    registry: PluginRegistry,
}

impl View for App {
    type V = Seq<(Box<dyn Minifier>,)>;

    closed spec fn view(&self) -> Seq<(Box<dyn Minifier>,)> {
        self.registry@
    }
}

impl Default for App {
    fn default() -> (r: Self)
        ensures
            r@.len() == 4,
            plugin_names(r@) == seq!["glb"@, "javascript"@, "css"@, "html"@],
    {
        App::new()
    }
}

impl App {
    /// Create a new application instance, with the GLB plugin registered
    /// first (its detection is the most specific), then JavaScript, CSS and
    /// HTML.
    pub fn new() -> (r: Self)
        ensures
            r@.len() == 4,
            plugin_names(r@) == seq!["glb"@, "javascript"@, "css"@, "html"@],
    {
        let mut registry = PluginRegistry::new();
        let glb: Box<dyn Minifier> = Box::new(GlbPlugin::new());
        let js: Box<dyn Minifier> = Box::new(JavaScriptPlugin::new());
        let css: Box<dyn Minifier> = Box::new(CSSPlugin::new());
        let html: Box<dyn Minifier> = Box::new(HTMLPlugin::new());
        let ghost names = seq![glb.spec_name(), js.spec_name(), css.spec_name(), html.spec_name()];
        assert(names == seq!["glb"@, "javascript"@, "css"@, "html"@]);
        let e0 = (glb,);
        let e1 = (js,);
        let e2 = (css,);
        let e3 = (html,);
        assert(e0.0.spec_name() == names[0] && e1.0.spec_name() == names[1]);
        assert(e2.0.spec_name() == names[2] && e3.0.spec_name() == names[3]);
        let ghost (g0, g1, g2, g3) = (e0, e1, e2, e3);
        registry.register_entry(e0);
        registry.register_entry(e1);
        let ghost r2 = registry@;
        registry.register_entry(e2);
        let ghost r3 = registry@;
        registry.register_entry(e3);
        assert(registry@[0] == r3[0] && r3[0] == r2[0] && r2[0] == g0);
        assert(registry@[1] == r3[1] && r3[1] == r2[1] && r2[1] == g1);
        assert(registry@[2] == r3[2] && r3[2] == g2);
        assert(registry@[3] == g3);
        assert(plugin_names(registry@) =~= seq!["glb"@, "javascript"@, "css"@, "html"@]);
        App { registry }
    }

    /// An application over the given registry.
    pub fn with_registry(registry: PluginRegistry) -> (r: Self)
        ensures
            r@ == registry@,
    {
        App { registry }
    }

    /// The registry of plugins.
    pub fn registry(&self) -> (r: &PluginRegistry)
        ensures
            r@ == self@,
    {
        &self.registry
    }

    /// Chooses the plugin for an input and minifies it: the format override
    /// names the plugin when there is one, otherwise the first plugin that
    /// detects the input is taken; without one the format is unsupported.
    /// Returns the index of the plugin and the minified bytes; a failing
    /// plugin is reported by name.
    pub fn minify_input(&mut self, args: &Args, input_bytes: &[u8]) -> (r: Result<
        (usize, Vec<u8>),
        MinifyError,
    >)
        ensures
            r matches Err(MinifyError::UnsupportedFormat) <==> chosen_plugin(
                old(self)@,
                args.format,
                input_bytes@,
            ) is None,
            chosen_plugin(old(self)@, args.format, input_bytes@) is None ==> final(self)@ == old(
                self,
            )@,
            r is Ok || r is Err && (r->Err_0 is UnsupportedFormat || r->Err_0 is PluginError),
            r matches Ok((i, out)) ==> chosen_plugin(old(self)@, args.format, input_bytes@) == Some(
                i as int,
            ) && (final(self)@[i as int].0.spec_stats() matches Some(st) && st.before_bytes
                == input_bytes@.len() && st.after_bytes == out@.len()),
            r matches Ok((i, out)) ==> old(self)@[i as int].0.spec_output(
                input_bytes@,
                level_for(args.aggressive),
            ) == Some(out@),
            (r is Err && r->Err_0 is PluginError) <==> (chosen_plugin(
                old(self)@,
                args.format,
                input_bytes@,
            ) matches Some(i) && old(self)@[i].0.spec_output(input_bytes@, level_for(args.aggressive))
                is None),
            r matches Err(MinifyError::PluginError(m)) ==> chosen_plugin(
                old(self)@,
                args.format,
                input_bytes@,
            ) matches Some(i) && final(self)@[i].0.spec_stats() == old(self)@[i].0.spec_stats()
                && (exists|e: MinifyError, t: Seq<char>|
                old(self)@[i].0.spec_error(input_bytes@, level_for(args.aggressive), e) && describes(e, t)
                    && m@ == plugin_failure_text(old(self)@[i].0.spec_name(), t)),
            final(self)@.len() == old(self)@.len(),
            forall|j: int|
                0 <= j < old(self)@.len() ==> #[trigger] final(self)@[j].0.spec_name() == old(
                    self,
                )@[j].0.spec_name(),
            forall|j: int, b: Seq<u8>|
                0 <= j < old(self)@.len() ==> #[trigger] final(self)@[j].0.spec_detect(b) == old(
                    self,
                )@[j].0.spec_detect(b),
    {
        let chosen = match args.format {
            Some(format) => self.registry.find_plugin_index_by_format(format),
            None => self.registry.find_plugin_index(input_bytes),
        };
        proof {
            crate::registry::lemma_first_named_in_range(self@, format_plugin_name(args.format.unwrap()), 0);
            crate::registry::lemma_first_detecting_in_range(self@, input_bytes@, 0);
        }
        let index = match chosen {
            Some(i) => i,
            None => {
                return Err(MinifyError::UnsupportedFormat);
            },
        };
        let level = args.get_minify_level();
        let name = string_from_str(self.registry.plugin_name(index));
        match self.registry.minify_with(index, input_bytes, level) {
            Ok(bytes) => Ok((index, bytes)),
            Err(e) => Err(plugin_failure(name.as_str(), &e)),
        }
    }

    /// The names of the registered plugins joined with `", "`.
    fn joined_plugin_names(&self) -> (r: Vec<char>)
        ensures
            r@ == join(plugin_names(self@), ", "@),
    {
        let names = self.registry.get_plugin_names();
        let mut parts: Vec<Vec<char>> = Vec::new();
        let mut i: usize = 0;
        while i < names.len()
            invariant
                i <= names@.len(),
                names@.len() == self@.len(),
                forall|k: int| 0 <= k < names@.len() ==> #[trigger] names@[k]@ == self@[k].0.spec_name(),
                parts@.len() == i,
                forall|k: int| 0 <= k < i ==> #[trigger] parts@[k]@ == self@[k].0.spec_name(),
            decreases names.len() - i,
        {
            parts.push(chars_of(names[i]));
            i += 1;
        }
        assert(parts@.map_values(|p: Vec<char>| p@) =~= plugin_names(self@));
        join_parts(&parts, ", ")
    }

    /// Advice on an error: what it means and what to try.
    pub fn error_help(&self, error: &MinifyError) -> (r: Vec<String>)
        ensures
            string_views(r@) == error_help_text(*error, plugin_names(self@)),
    {
        let mut lines: Vec<String> = Vec::new();
        match error {
            MinifyError::UnsupportedFormat => {
                push_text(&mut lines, "No plugin available to handle this file format.");
                if self.registry.is_empty() {
                    push_text(
                        &mut lines,
                        "No plugins are currently registered. Plugins will be available once implemented.",
                    );
                } else {
                    let mut out: Vec<char> = Vec::new();
                    append_str(&mut out, "Available plugins: ");
                    let joined = self.joined_plugin_names();
                    crate::text::append(&mut out, joined.as_slice());
                    push_line(&mut lines, string_of(out.as_slice()));
                    push_text(&mut lines, "Try using --format flag to override auto-detection.");
                }
            },
            MinifyError::FileNotFound(_) => {
                push_text(&mut lines, "Check that the input file exists and the path is correct.");
            },
            MinifyError::PermissionError(_) => {
                push_text(&mut lines, "Check file and directory permissions.");
                push_text(
                    &mut lines,
                    "Ensure you have read access to the input file and write access to the output directory.",
                );
            },
            MinifyError::MemoryLimitExceeded(_) => {
                push_text(&mut lines, "The file is too large to process safely.");
                let mut out: Vec<char> = Vec::new();
                append_str(&mut out, "Maximum supported file size is ");
                push_decimal_u64(&mut out, MAX_FILE_SIZE / (1024 * 1024));
                append_str(&mut out, " MB.");
                push_line(&mut lines, string_of(out.as_slice()));
                push_text(&mut lines, "Consider splitting the file or processing it in smaller chunks.");
            },
            MinifyError::ParseError(_) => {
                push_text(&mut lines, "The file contains syntax errors or is corrupted.");
                push_text(&mut lines, "Verify the file is valid and try again.");
            },
            MinifyError::PluginError(_) => {
                push_text(&mut lines, "The minification plugin encountered an error.");
                push_text(&mut lines, "This may indicate a bug in the plugin or unsupported syntax.");
            },
            MinifyError::BackupError(_) => {
                push_text(&mut lines, "Failed to create or manage file backup.");
                push_text(&mut lines, "Check available disk space and file permissions.");
            },
            MinifyError::OutputExists(_) => {
                push_text(&mut lines, "Output file already exists.");
                push_text(&mut lines, "Use --output flag to specify a different output path.");
            },
            MinifyError::IoError(_) => {
                push_text(&mut lines, "A file system error occurred.");
                push_text(&mut lines, "Check file permissions, disk space, and file system integrity.");
            },
        }
        assert(string_views(lines@) =~= error_help_text(*error, plugin_names(self@)));
        lines
    }

    /// The statistics of the plugin at an index.
    pub fn plugin_stats(&self, index: usize) -> (r: Option<MinifyStats>)
        requires
            index < self@.len(),
        ensures
            r == self@[index as int].0.spec_stats(),
    {
        self.registry.plugin_stats(index)
    }

    /// The name of the plugin at an index.
    pub fn plugin_name(&self, index: usize) -> (r: &str)
        requires
            index < self@.len(),
        ensures
            r@ == self@[index as int].0.spec_name(),
    {
        self.registry.plugin_name(index)
    }
}

} // verus!
