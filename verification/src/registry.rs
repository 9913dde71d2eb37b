//! The plugin registry: plugins in registration order, chosen for an input
//! by the first one that detects it, or by name for a format override.

use vstd::prelude::*;
use crate::css::CSSPlugin;
use crate::glb::GlbPlugin;
use crate::html::HTMLPlugin;
use crate::js::JavaScriptPlugin;
use crate::minifier::{Minifier, MinifyError, MinifyLevel};
use crate::strings::chars_of;

verus! {

/// Supported format overrides for manual format selection
#[derive(Debug, Clone, Copy, PartialEq, Eq, Structural)]
pub enum FormatOverride {
    /// JavaScript/TypeScript
    Js,
    /// CSS
    Css,
    /// HTML
    Html,
    /// GLB (3D models)
    Glb,
    /// Rust
    Rust,
    /// C
    C,
    /// C++
    Cpp,
    /// Java
    Java,
}

/// The plugin name that a format override selects.
pub open spec fn format_plugin_name(format: FormatOverride) -> Seq<char> {
    match format {
        FormatOverride::Js => "javascript"@,
        FormatOverride::Css => "css"@,
        FormatOverride::Html => "html"@,
        FormatOverride::Glb => "glb"@,
        FormatOverride::Rust => "rust"@,
        FormatOverride::C => "c"@,
        FormatOverride::Cpp => "cpp"@,
        FormatOverride::Java => "java"@,
    }
}

pub fn format_name(format: FormatOverride) -> (r: &'static str)
    ensures
        r@ == format_plugin_name(format),
{
    match format {
        FormatOverride::Js => "javascript",
        FormatOverride::Css => "css",
        FormatOverride::Html => "html",
        FormatOverride::Glb => "glb",
        FormatOverride::Rust => "rust",
        FormatOverride::C => "c",
        FormatOverride::Cpp => "cpp",
        FormatOverride::Java => "java",
    }
}

/// The index of the first plugin, from index `j` on, that detects the input.
pub open spec fn first_detecting_from(ps: Seq<(Box<dyn Minifier>,)>, input: Seq<u8>, j: int) -> Option<
    int,
>
    decreases ps.len() - j,
{
    if j < 0 || j >= ps.len() {
        None
    } else if ps[j].0.spec_detect(input) {
        Some(j)
    } else {
        first_detecting_from(ps, input, j + 1)
    }
}

/// The plugin chosen for an input: none for empty input, otherwise the first
/// one that detects it.
pub open spec fn selected_plugin(ps: Seq<(Box<dyn Minifier>,)>, input: Seq<u8>) -> Option<int> {
    if input.len() == 0 {
        None
    } else {
        first_detecting_from(ps, input, 0)
    }
}

/// The index of the first plugin, from index `j` on, with the given name.
pub open spec fn first_named_from(ps: Seq<(Box<dyn Minifier>,)>, name: Seq<char>, j: int) -> Option<int>
    decreases ps.len() - j,
{
    if j < 0 || j >= ps.len() {
        None
    } else if ps[j].0.spec_name() == name {
        Some(j)
    } else {
        first_named_from(ps, name, j + 1)
    }
}

pub proof fn lemma_first_detecting_in_range(ps: Seq<(Box<dyn Minifier>,)>, input: Seq<u8>, j: int)
    ensures
        first_detecting_from(ps, input, j) matches Some(k) ==> j <= k < ps.len()
            && ps[k].0.spec_detect(input),
    decreases ps.len() - j,
{
    if 0 <= j < ps.len() && !ps[j].0.spec_detect(input) {
        lemma_first_detecting_in_range(ps, input, j + 1);
    }
}

pub proof fn lemma_first_named_in_range(ps: Seq<(Box<dyn Minifier>,)>, name: Seq<char>, j: int)
    ensures
        first_named_from(ps, name, j) matches Some(k) ==> j <= k < ps.len() && ps[k].0.spec_name()
            == name,
    decreases ps.len() - j,
{
    if 0 <= j < ps.len() && ps[j].0.spec_name() != name {
        lemma_first_named_in_range(ps, name, j + 1);
    }
}

/// Plugin selection is first-match-wins: the plugin chosen for a non-empty
/// input detects it and no plugin registered before it does; no plugin is
/// chosen exactly when the input is empty or no plugin detects it.
pub proof fn lemma_first_match_wins(ps: Seq<(Box<dyn Minifier>,)>, input: Seq<u8>)
    ensures
        selected_plugin(ps, input) matches Some(k) ==> 0 <= k < ps.len() && ps[k].0.spec_detect(input)
            && input.len() > 0 && forall|j: int| 0 <= j < k ==> !#[trigger] ps[j].0.spec_detect(input),
        selected_plugin(ps, input) is None <==> (input.len() == 0 || forall|j: int|
            0 <= j < ps.len() ==> !#[trigger] ps[j].0.spec_detect(input)),
{
    lemma_first_detecting_in_range(ps, input, 0);
    lemma_first_detecting_prefix(ps, input, 0);
}

proof fn lemma_first_detecting_prefix(ps: Seq<(Box<dyn Minifier>,)>, input: Seq<u8>, j: int)
    requires
        0 <= j,
    ensures
        first_detecting_from(ps, input, j) matches Some(k) ==> forall|m: int|
            j <= m < k ==> !#[trigger] ps[m].0.spec_detect(input),
        first_detecting_from(ps, input, j) is None ==> forall|m: int|
            j <= m < ps.len() ==> !#[trigger] ps[m].0.spec_detect(input),
    decreases ps.len() - j,
{
    if j < ps.len() && !ps[j].0.spec_detect(input) {
        lemma_first_detecting_prefix(ps, input, j + 1);
    }
}

/// A format override selects the first plugin registered under the name of
/// the format, and none when no plugin has that name.
pub proof fn lemma_override_selects_by_name(ps: Seq<(Box<dyn Minifier>,)>, format: FormatOverride)
    ensures
        first_named_from(ps, format_plugin_name(format), 0) matches Some(k) ==> 0 <= k < ps.len()
            && ps[k].0.spec_name() == format_plugin_name(format) && forall|j: int|
            0 <= j < k ==> #[trigger] ps[j].0.spec_name() != format_plugin_name(format),
        first_named_from(ps, format_plugin_name(format), 0) is None <==> forall|j: int|
            0 <= j < ps.len() ==> #[trigger] ps[j].0.spec_name() != format_plugin_name(format),
{
    lemma_first_named_in_range(ps, format_plugin_name(format), 0);
    lemma_first_named_prefix(ps, format_plugin_name(format), 0);
}

proof fn lemma_first_named_prefix(ps: Seq<(Box<dyn Minifier>,)>, name: Seq<char>, j: int)
    requires
        0 <= j,
    ensures
        first_named_from(ps, name, j) matches Some(k) ==> forall|m: int|
            j <= m < k ==> #[trigger] ps[m].0.spec_name() != name,
        first_named_from(ps, name, j) is None ==> forall|m: int|
            j <= m < ps.len() ==> #[trigger] ps[m].0.spec_name() != name,
    decreases ps.len() - j,
{
    if j < ps.len() && ps[j].0.spec_name() != name {
        lemma_first_named_prefix(ps, name, j + 1);
    }
}

/// The override of each format that the library has a plugin for selects
/// that plugin: the name it looks for is the name under which the plugin of
/// that format registers itself.
pub proof fn lemma_override_names_its_plugin(
    js: JavaScriptPlugin,
    css: CSSPlugin,
    html: HTMLPlugin,
    glb: GlbPlugin,
)
    ensures
        format_plugin_name(FormatOverride::Js) == js.spec_name(),
        format_plugin_name(FormatOverride::Css) == css.spec_name(),
        format_plugin_name(FormatOverride::Html) == html.spec_name(),
        format_plugin_name(FormatOverride::Glb) == glb.spec_name(),
{
}

/// With the plugins registered under the names `glb`, `javascript`, `css`
/// and `html`, in that order, as the application registers them, the
/// override of each of these formats selects the plugin of that format, and
/// the override of a format with no plugin selects none.
pub proof fn lemma_override_choice_in_default_order(ps: Seq<(Box<dyn Minifier>,)>, format: FormatOverride)
    requires
        plugin_names(ps) == seq!["glb"@, "javascript"@, "css"@, "html"@],
    ensures
        format == FormatOverride::Glb ==> first_named_from(ps, format_plugin_name(format), 0)
            == Some(0int),
        format == FormatOverride::Js ==> first_named_from(ps, format_plugin_name(format), 0)
            == Some(1int),
        format == FormatOverride::Css ==> first_named_from(ps, format_plugin_name(format), 0)
            == Some(2int),
        format == FormatOverride::Html ==> first_named_from(ps, format_plugin_name(format), 0)
            == Some(3int),
        format != FormatOverride::Glb && format != FormatOverride::Js && format
            != FormatOverride::Css && format != FormatOverride::Html ==> first_named_from(
            ps,
            format_plugin_name(format),
            0,
        ) is None,
{
    reveal_strlit("glb");
    reveal_strlit("javascript");
    reveal_strlit("css");
    reveal_strlit("html");
    reveal_strlit("rust");
    reveal_strlit("c");
    reveal_strlit("cpp");
    reveal_strlit("java");
    let names = plugin_names(ps);
    assert(names.len() == ps.len());
    assert(names.len() == 4);
    assert(ps[0].0.spec_name() == names[0]);
    assert(ps[1].0.spec_name() == names[1]);
    assert(ps[2].0.spec_name() == names[2]);
    assert(ps[3].0.spec_name() == names[3]);
    let name = format_plugin_name(format);
    assert(first_named_from(ps, name, 4) is None);
    assert(first_named_from(ps, name, 3) == if name == "html"@ { Some(3int) } else { None });
    assert(first_named_from(ps, name, 2) == if name == "css"@ {
        Some(2int)
    } else {
        first_named_from(ps, name, 3)
    });
    assert(first_named_from(ps, name, 1) == if name == "javascript"@ {
        Some(1int)
    } else {
        first_named_from(ps, name, 2)
    });
    assert(first_named_from(ps, name, 0) == if name == "glb"@ {
        Some(0int)
    } else {
        first_named_from(ps, name, 1)
    });
    match format {
        FormatOverride::Glb => {},
        FormatOverride::Js => assert("javascript"@[0] != "glb"@[0]),
        FormatOverride::Css => assert("css"@[0] != "glb"@[0] && "css"@[0] != "javascript"@[0]),
        FormatOverride::Html => assert("html"@[0] != "glb"@[0] && "html"@[0] != "javascript"@[0]
            && "html"@[0] != "css"@[0]),
        FormatOverride::Rust => assert("rust"@[0] != "glb"@[0] && "rust"@[0] != "javascript"@[0]
            && "rust"@[0] != "css"@[0] && "rust"@[0] != "html"@[0]),
        FormatOverride::C => assert("c"@.len() == 1),
        FormatOverride::Cpp => assert("cpp"@[1] != "glb"@[1] && "cpp"@[0] != "javascript"@[0]
            && "cpp"@[1] != "css"@[1]),
        FormatOverride::Java => assert("java"@[0] != "glb"@[0] && "java"@.len() != "javascript"@.len()
            && "java"@[0] != "css"@[0] && "java"@[0] != "html"@[0]),
    }
}


/// The names of the plugins, in registration order.
pub open spec fn plugin_names(ps: Seq<(Box<dyn Minifier>,)>) -> Seq<Seq<char>> {
    Seq::new(ps.len(), |i: int| ps[i].0.spec_name())
}

/// Whether two string slices hold the same characters.
pub fn same_text(a: &str, b: &str) -> (r: bool)
    ensures
        r == (a@ == b@),
{
    let x = chars_of(a);
    let y = chars_of(b);
    if x.len() != y.len() {
        assert(x@.len() != y@.len());
        return false;
    }
    let mut i: usize = 0;
    while i < x.len()
        invariant
            i <= x.len(),
            x.len() == y.len(),
            x@ == a@,
            y@ == b@,
            forall|k: int| 0 <= k < i ==> x@[k] == y@[k],
        decreases x.len() - i,
    {
        if x[i] != y[i] {
            assert(x@[i as int] != y@[i as int]);
            return false;
        }
        i += 1;
    }
    assert(x@ =~= y@);
    true
}

/// Plugin registry that manages all available minification plugins
pub struct PluginRegistry {
    /// The plugins in registration order, each held in a one-element tuple.
    plugins: Vec<(Box<dyn Minifier>,)>,
}

impl View for PluginRegistry {
    type V = Seq<(Box<dyn Minifier>,)>;

    closed spec fn view(&self) -> Seq<(Box<dyn Minifier>,)> {
        self.plugins@
    }
}

impl Default for PluginRegistry {
    fn default() -> (r: Self)
        ensures
            r@ == Seq::<(Box<dyn Minifier>,)>::empty(),
    {
        PluginRegistry::new()
    }
}

impl PluginRegistry {
    /// Create a new plugin registry
    pub fn new() -> (r: Self)
        ensures
            r@ == Seq::<(Box<dyn Minifier>,)>::empty(),
    {
        PluginRegistry { plugins: Vec::new() }
    }

    /// Register a new plugin with the registry
    pub fn register(&mut self, plugin: Box<dyn Minifier>)
        ensures
            final(self)@.len() == old(self)@.len() + 1,
            final(self)@[old(self)@.len() as int].0.spec_name() == plugin.spec_name(),
            forall|b: Seq<u8>|
                #[trigger] final(self)@[old(self)@.len() as int].0.spec_detect(b) == plugin.spec_detect(b),
            final(self)@[old(self)@.len() as int].0.spec_stats() == plugin.spec_stats(),
            forall|b: Seq<u8>, l: MinifyLevel|
                #[trigger] final(self)@[old(self)@.len() as int].0.spec_output(b, l) == plugin.spec_output(b, l),
            forall|i: int| 0 <= i < old(self)@.len() ==> #[trigger] final(self)@[i] == old(self)@[i],
            plugin_names(final(self)@) == plugin_names(old(self)@).push(plugin.spec_name()),
    {
        let entry = (plugin,);
        let ghost added = entry;
        self.register_entry(entry);
        assert(self@[old(self)@.len() as int] == added);
        assert(plugin_names(self@) =~= plugin_names(old(self)@).push(plugin.spec_name()));
    }

    /// Registers the plugin held in a one-element tuple, as `register` does:
    /// the registry then holds exactly its old plugins followed by this one.
    pub fn register_entry(&mut self, entry: (Box<dyn Minifier>,))
        ensures
            final(self)@ == old(self)@.push(entry),
            final(self)@.len() == old(self)@.len() + 1,
            final(self)@[old(self)@.len() as int] == entry,
            forall|i: int| 0 <= i < old(self)@.len() ==> #[trigger] final(self)@[i] == old(self)@[i],
            plugin_names(final(self)@) == plugin_names(old(self)@).push(entry.0.spec_name()),
    {
        let ghost before = self.plugins@;
        self.plugins.push(entry);
        proof {
            vstd::seq::axiom_seq_push_len(before, entry);
            vstd::seq::axiom_seq_push_index_same(before, entry, before.len() as int);
            assert forall|i: int| 0 <= i < before.len() implies #[trigger] self.plugins@[i]
                == before[i] by {
                vstd::seq::axiom_seq_push_index_different(before, entry, i);
            }
            assert(self.plugins@ =~= before.push(entry));
            assert(plugin_names(self.plugins@) =~= plugin_names(before).push(entry.0.spec_name()));
        }
    }

    /// The index of the plugin for an input: the first that detects it
    /// (first match wins); none for empty input.
    pub fn find_plugin_index(&self, input_bytes: &[u8]) -> (r: Option<usize>)
        ensures
            r matches Some(i) ==> selected_plugin(self@, input_bytes@) == Some(i as int),
            r is None ==> selected_plugin(self@, input_bytes@) is None,
    {
        if input_bytes.len() == 0 {
            return None;
        }
        let mut i: usize = 0;
        while i < self.plugins.len()
            invariant
                i <= self.plugins@.len(),
                input_bytes@.len() > 0,
                first_detecting_from(self@, input_bytes@, 0) == first_detecting_from(
                    self@,
                    input_bytes@,
                    i as int,
                ),
            decreases self.plugins.len() - i,
        {
            if self.plugins[i].0.detect(input_bytes) {
                return Some(i);
            }
            i += 1;
        }
        None
    }

    /// Find the first plugin that can handle the given input
    /// Implements deterministic plugin selection (first match wins)
    pub fn find_plugin(&self, input_bytes: &[u8]) -> (r: Option<&Box<dyn Minifier>>)
        ensures
            r is Some <==> selected_plugin(self@, input_bytes@) is Some,
            r matches Some(p) ==> *p == self@[selected_plugin(self@, input_bytes@).unwrap()].0,
    {
        proof {
            lemma_first_detecting_in_range(self@, input_bytes@, 0);
        }
        match self.find_plugin_index(input_bytes) {
            Some(i) => Some(&self.plugins[i].0),
            None => None,
        }
    }

    /// The index of the first plugin with the name that a format override selects.
    pub fn find_plugin_index_by_format(&self, format: FormatOverride) -> (r: Option<usize>)
        ensures
            r matches Some(i) ==> first_named_from(self@, format_plugin_name(format), 0) == Some(
                i as int,
            ),
            r is None ==> first_named_from(self@, format_plugin_name(format), 0) is None,
    {
        let format_name = format_name(format);
        let mut i: usize = 0;
        while i < self.plugins.len()
            invariant
                i <= self.plugins@.len(),
                format_name@ == format_plugin_name(format),
                first_named_from(self@, format_plugin_name(format), 0) == first_named_from(
                    self@,
                    format_plugin_name(format),
                    i as int,
                ),
            decreases self.plugins.len() - i,
        {
            if same_text(self.plugins[i].0.name(), format_name) {
                return Some(i);
            }
            i += 1;
        }
        None
    }

    /// Find plugin by format override
    /// Provides explicit format selection bypassing auto-detection
    pub fn find_plugin_by_format(&self, format: FormatOverride) -> (r: Option<&Box<dyn Minifier>>)
        ensures
            r is Some <==> first_named_from(self@, format_plugin_name(format), 0) is Some,
            r matches Some(p) ==> *p == self@[first_named_from(
                self@,
                format_plugin_name(format),
                0,
            ).unwrap()].0,
    {
        proof {
            lemma_first_named_in_range(self@, format_plugin_name(format), 0);
        }
        match self.find_plugin_index_by_format(format) {
            Some(i) => Some(&self.plugins[i].0),
            None => None,
        }
    }

    /// Get all registered plugin names
    pub fn get_plugin_names(&self) -> (r: Vec<&str>)
        ensures
            r@.len() == self@.len(),
            forall|k: int| 0 <= k < r@.len() ==> #[trigger] r@[k]@ == self@[k].0.spec_name(),
    {
        let mut names: Vec<&str> = Vec::new();
        let mut i: usize = 0;
        while i < self.plugins.len()
            invariant
                i <= self.plugins@.len(),
                names@.len() == i,
                forall|k: int| 0 <= k < i ==> #[trigger] names@[k]@ == self@[k].0.spec_name(),
            decreases self.plugins.len() - i,
        {
            let n = self.plugins[i].0.name();
            names.push(n);
            i += 1;
        }
        names
    }

    /// Get the number of registered plugins
    pub fn len(&self) -> (r: usize)
        ensures
            r == self@.len(),
    {
        self.plugins.len()
    }

    /// Check if the registry is empty
    pub fn is_empty(&self) -> (r: bool)
        ensures
            r == (self@.len() == 0),
    {
        self.plugins.len() == 0
    }

    /// The name of the plugin at an index.
    pub fn plugin_name(&self, index: usize) -> (r: &str)
        requires
            index < self@.len(),
        ensures
            r@ == self@[index as int].0.spec_name(),
    {
        self.plugins[index].0.name()
    }

    /// Minifies with the plugin at an index, which keeps its name and
    /// detection; the result is the plugin's output for the input and level,
    /// and an error exactly when the plugin refuses them.
    pub fn minify_with(&mut self, index: usize, input_bytes: &[u8], level: MinifyLevel) -> (r: Result<
        Vec<u8>,
        MinifyError,
    >)
        requires
            index < old(self)@.len(),
        ensures
            final(self)@.len() == old(self)@.len(),
            forall|j: int|
                0 <= j < old(self)@.len() && j != index ==> final(self)@[j] == old(self)@[j],
            final(self)@[index as int].0.spec_name() == old(self)@[index as int].0.spec_name(),
            forall|b: Seq<u8>|
                final(self)@[index as int].0.spec_detect(b) == old(self)@[index as int].0.spec_detect(b),
            forall|b: Seq<u8>, l: MinifyLevel|
                #[trigger] final(self)@[index as int].0.spec_output(b, l) == old(self)@[index as int].0.spec_output(b, l),
            r is Ok <==> old(self)@[index as int].0.spec_output(input_bytes@, level) is Some,
            r matches Ok(out) ==> old(self)@[index as int].0.spec_output(input_bytes@, level) == Some(out@),
            forall|b: Seq<u8>, l: MinifyLevel, e: MinifyError|
                #[trigger] final(self)@[index as int].0.spec_error(b, l, e) == old(self)@[index as int].0.spec_error(b, l, e),
            r matches Err(e) ==> old(self)@[index as int].0.spec_error(input_bytes@, level, e),
            r is Err ==> final(self)@[index as int].0.spec_stats() == old(self)@[index as int].0.spec_stats(),
            r matches Ok(out) ==> final(self)@[index as int].0.spec_stats() matches Some(st)
                && st.before_bytes == input_bytes@.len() && st.after_bytes == out@.len(),
    {
        self.plugins[index].0.minify(input_bytes, level)
    }

    /// The statistics of the plugin at an index.
    pub fn plugin_stats(&self, index: usize) -> (r: Option<crate::stats::MinifyStats>)
        requires
            index < self@.len(),
        ensures
            r == self@[index as int].0.spec_stats(),
    {
        self.plugins[index].0.stats()
    }
}

} // verus!
