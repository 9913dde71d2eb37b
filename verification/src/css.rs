//! The CSS plugin: comment removal, whitespace removal outside string
//! literals (which also tightens colons and semicolons), and collapsing of
//! repeated semicolons.

use vstd::prelude::*;
use vstd::utf8::encode_utf8;
use crate::balance::{balance_error, check_balance};
use crate::minifier::{Minifier, MinifyError, MinifyLevel};
use crate::pattern::{compile, regex_compiles, regex_replace_all, replace_all, Pattern};
use crate::stats::MinifyStats;
use crate::strings::{
    chars_of, decode_lossy, encode, is_alphabetic, is_white_space, alphabetic,
    unicode_white_space, utf8_lossy,
};
use crate::js::{embeds, lemma_embeds_push_both, lemma_embeds_push_input};
use crate::text::{contains, contains_str, string_from_str, trim, trimmed};

verus! {

/// Block comments.
pub const CSS_COMMENT: &'static str = r"/\*[\s\S]*?\*/";

/// Whitespace at the start or at the end of the text.
pub const CSS_LEADING_TRAILING: &'static str = r"^\s+|\s+$";

/// Runs of two or more semicolons.
pub const CSS_MULTIPLE_SEMICOLON: &'static str = r";{2,}";

/// A semicolon right before a closing brace.
pub const CSS_TRAILING_SEMICOLON: &'static str = r";\}";

/// State of the whitespace-removal pass.
pub struct CssScan {
    pub in_string: bool,
    pub quote: char,
    pub escape_next: bool,
}

pub open spec fn css_scan_start() -> CssScan {
    CssScan { in_string: false, quote: '\0', escape_next: false }
}

pub open spec fn css_scan_state(st: CssScan, c: char) -> CssScan {
    if st.escape_next {
        CssScan { escape_next: false, ..st }
    } else if c == '\\' {
        CssScan { escape_next: true, ..st }
    } else if st.in_string {
        if c == st.quote {
            CssScan { in_string: false, quote: '\0', ..st }
        } else {
            st
        }
    } else if c == '"' || c == '\'' {
        CssScan { in_string: true, quote: c, ..st }
    } else {
        st
    }
}

/// A character is kept unless it is whitespace outside a string literal that
/// no backslash escapes.
pub open spec fn css_keeps(st: CssScan, c: char) -> bool {
    st.escape_next || c == '\\' || st.in_string || c == '"' || c == '\'' || !unicode_white_space(c)
}

pub open spec fn css_strip_from(s: Seq<char>, i: int, st: CssScan, out: Seq<char>) -> Seq<char>
    decreases s.len() - i,
{
    if i < 0 || i >= s.len() {
        out
    } else {
        css_strip_from(
            s,
            i + 1,
            css_scan_state(st, s[i]),
            if css_keeps(st, s[i]) {
                out.push(s[i])
            } else {
                out
            },
        )
    }
}

/// The text without its whitespace outside string literals.
pub open spec fn css_strip_whitespace(s: Seq<char>) -> Seq<char> {
    css_strip_from(s, 0, css_scan_start(), Seq::empty())
}

pub proof fn lemma_css_strip_from_len(s: Seq<char>, i: int, st: CssScan, out: Seq<char>)
    requires
        0 <= i <= s.len(),
    ensures
        css_strip_from(s, i, st, out).len() <= out.len() + (s.len() - i),
    decreases s.len() - i,
{
    if i < s.len() {
        lemma_css_strip_from_len(
            s,
            i + 1,
            css_scan_state(st, s[i]),
            if css_keeps(st, s[i]) {
                out.push(s[i])
            } else {
                out
            },
        );
    }
}

/// The CSS whitespace pass only drops characters: its output is never
/// longer than its input.
pub proof fn lemma_css_strip_whitespace_never_longer(s: Seq<char>)
    ensures
        css_strip_whitespace(s).len() <= s.len(),
{
    lemma_css_strip_from_len(s, 0, css_scan_start(), Seq::empty());
}

proof fn lemma_css_strip_from_embeds(s: Seq<char>, i: int, st: CssScan, out: Seq<char>)
    requires
        0 <= i <= s.len(),
        embeds(out, s.take(i)),
    ensures
        embeds(css_strip_from(s, i, st, out), s),
    decreases s.len() - i,
{
    if i == s.len() {
        assert(s.take(i) =~= s);
    } else {
        let c = s[i];
        assert(s.take(i).push(c) =~= s.take(i + 1));
        lemma_embeds_push_both(out, s.take(i), c, c);
        lemma_embeds_push_input(out, s.take(i), c);
        lemma_css_strip_from_embeds(
            s,
            i + 1,
            css_scan_state(st, c),
            if css_keeps(st, c) {
                out.push(c)
            } else {
                out
            },
        );
    }
}

/// The CSS whitespace pass only removes: its output embeds into its input,
/// every character of it being one of the input's, in the same order.
pub proof fn lemma_css_strip_whitespace_only_removes(s: Seq<char>)
    ensures
        embeds(css_strip_whitespace(s), s),
{
    assert(s.take(0) =~= Seq::<char>::empty());
    lemma_css_strip_from_embeds(s, 0, css_scan_start(), Seq::empty());
}

/// The scan's state after the characters of `s` from index `i` on.
pub open spec fn css_state_from(s: Seq<char>, i: int, st: CssScan) -> CssScan
    decreases s.len() - i,
{
    if i < 0 || i >= s.len() {
        st
    } else {
        css_state_from(s, i + 1, css_scan_state(st, s[i]))
    }
}

proof fn lemma_css_strip_from_out(s: Seq<char>, i: int, st: CssScan, out: Seq<char>)
    ensures
        css_strip_from(s, i, st, out) == out + css_strip_from(s, i, st, Seq::empty()),
    decreases s.len() - i,
{
    if 0 <= i < s.len() {
        let c = s[i];
        let st1 = css_scan_state(st, c);
        lemma_css_strip_from_out(s, i + 1, st1, if css_keeps(st, c) { out.push(c) } else { out });
        let e = Seq::<char>::empty();
        lemma_css_strip_from_out(s, i + 1, st1, if css_keeps(st, c) { e.push(c) } else { e });
        if css_keeps(st, c) {
            assert(out.push(c) + css_strip_from(s, i + 1, st1, e) =~= out + (e.push(c)
                + css_strip_from(s, i + 1, st1, e)));
        } else {
            assert(e + css_strip_from(s, i + 1, st1, e) =~= css_strip_from(s, i + 1, st1, e));
        }
    } else {
        assert(out + Seq::<char>::empty() =~= out);
    }
}

proof fn lemma_css_strip_from_shift(a: Seq<char>, b: Seq<char>, k: int, st: CssScan, out: Seq<char>)
    requires
        0 <= k <= b.len(),
    ensures
        css_strip_from(a + b, a.len() + k, st, out) == css_strip_from(b, k, st, out),
    decreases b.len() - k,
{
    if k < b.len() {
        assert((a + b)[a.len() + k] == b[k]);
        let c = b[k];
        lemma_css_strip_from_shift(
            a,
            b,
            k + 1,
            css_scan_state(st, c),
            if css_keeps(st, c) { out.push(c) } else { out },
        );
    }
}

proof fn lemma_css_strip_from_concat(a: Seq<char>, b: Seq<char>, i: int, st: CssScan, out: Seq<char>)
    requires
        0 <= i <= a.len(),
    ensures
        css_strip_from(a + b, i, st, out) == css_strip_from(
            b,
            0,
            css_state_from(a, i, st),
            css_strip_from(a, i, st, out),
        ),
    decreases a.len() - i,
{
    if i == a.len() {
        lemma_css_strip_from_shift(a, b, 0, st, out);
    } else {
        assert((a + b)[i] == a[i]);
        let c = a[i];
        lemma_css_strip_from_concat(
            a,
            b,
            i + 1,
            css_scan_state(st, c),
            if css_keeps(st, c) { out.push(c) } else { out },
        );
    }
}

proof fn lemma_css_state_plain(s: Seq<char>, i: int)
    requires
        forall|k: int| 0 <= k < s.len() ==> s[k] != '"' && s[k] != '\'' && s[k] != '\\',
    ensures
        css_state_from(s, i, css_scan_start()) == css_scan_start(),
    decreases s.len() - i,
{
    if 0 <= i < s.len() {
        lemma_css_state_plain(s, i + 1);
    }
}

proof fn lemma_css_strip_in_string(s: Seq<char>, i: int, j: int, st: CssScan, out: Seq<char>)
    requires
        0 <= i <= j <= s.len(),
        st.in_string,
        !st.escape_next,
        forall|k: int| i <= k < j ==> s[k] != st.quote && s[k] != '\\',
    ensures
        css_strip_from(s, i, st, out) == css_strip_from(s, j, st, out + s.subrange(i, j)),
    decreases j - i,
{
    if i == j {
        assert(out + s.subrange(i, j) =~= out);
    } else {
        assert(css_scan_state(st, s[i]) == st);
        lemma_css_strip_in_string(s, i + 1, j, st, out.push(s[i]));
        assert(out.push(s[i]) + s.subrange(i + 1, j) =~= out + s.subrange(i, j));
    }
}

/// In a text with no quotes or backslashes, every whitespace character is
/// removed and every other character kept, in order.
pub proof fn lemma_css_plain_text(s: Seq<char>)
    requires
        forall|k: int| 0 <= k < s.len() ==> s[k] != '"' && s[k] != '\'' && s[k] != '\\',
    ensures
        css_strip_whitespace(s) == s.filter(|c: char| !unicode_white_space(c)),
    decreases s.len(),
{
    reveal(Seq::filter);
    if s.len() > 0 {
        let a = s.drop_last();
        let c = s.last();
        assert(s =~= a + seq![c]);
        let pred = |x: char| !unicode_white_space(x);
        lemma_css_plain_text(a);
        lemma_css_strip_from_concat(a, seq![c], 0, css_scan_start(), Seq::empty());
        lemma_css_state_plain(a, 0);
        let x = css_strip_whitespace(a);
        let one = seq![c];
        assert(css_strip_from(one, 1, css_scan_state(css_scan_start(), c), x.push(c)) == x.push(c));
        assert(css_strip_from(one, 1, css_scan_state(css_scan_start(), c), x) == x);
        assert(css_strip_whitespace(s) == if pred(c) { x.push(c) } else { x });
        assert(s.filter(pred) == if pred(c) { a.filter(pred).push(c) } else { a.filter(pred) });
    }
}

/// Whitespace inside a string literal is kept: a literal opened by a quote
/// character ends only at the same character, and every character between
/// the two quotes reaches the output unchanged. Before the literal (in a
/// text with no quotes or backslashes) and after it, whitespace is removed
/// as in a text of its own.
pub proof fn lemma_css_string_literal_kept(p: Seq<char>, q: char, t: Seq<char>, r: Seq<char>)
    requires
        q == '"' || q == '\'',
        forall|k: int| 0 <= k < p.len() ==> p[k] != '"' && p[k] != '\'' && p[k] != '\\',
        forall|k: int| 0 <= k < t.len() ==> t[k] != q && t[k] != '\\',
    ensures
        css_strip_whitespace(p + seq![q] + t + seq![q] + r) == css_strip_whitespace(p) + seq![q] + t
            + seq![q] + css_strip_whitespace(r),
{
    let lit = seq![q] + t + seq![q];
    let rest = lit + r;
    let s = p + seq![q] + t + seq![q] + r;
    assert(s =~= p + rest);
    let start = css_scan_start();
    let e = Seq::<char>::empty();
    let x = css_strip_whitespace(p);
    lemma_css_strip_from_concat(p, rest, 0, start, e);
    lemma_css_state_plain(p, 0);
    // The opening quote.
    assert(rest[0] == q);
    let sq = CssScan { in_string: true, quote: q, escape_next: false };
    assert(css_scan_state(start, q) == sq);
    // The literal's content.
    let m = t.len() as int;
    assert forall|k: int| 1 <= k < 1 + m implies rest[k] != sq.quote && rest[k] != '\\' by {
        assert(rest[k] == t[k - 1]);
    }
    lemma_css_strip_in_string(rest, 1, 1 + m, sq, x.push(q));
    assert(rest.subrange(1, 1 + m) =~= t);
    // The closing quote.
    assert(rest[1 + m] == q);
    assert(css_scan_state(sq, q) == start);
    let y = x.push(q) + t;
    assert(css_strip_from(rest, 1 + m, sq, y) == css_strip_from(rest, 2 + m, start, y.push(q)));
    // What follows.
    assert(lit.len() == 2 + m);
    lemma_css_strip_from_shift(lit, r, 0, start, y.push(q));
    lemma_css_strip_from_out(r, 0, start, y.push(q));
    assert(y.push(q) =~= x + seq![q] + t + seq![q]);
}

pub open spec fn css_patterns_compile() -> bool {
    &&& regex_compiles(CSS_COMMENT@)
    &&& regex_compiles(CSS_LEADING_TRAILING@)
    &&& regex_compiles(CSS_MULTIPLE_SEMICOLON@)
}

/// The steps that safe and aggressive mode share: comments removed,
/// whitespace outside strings removed (which leaves none around colons and
/// semicolons there, while whitespace inside strings is kept), runs of
/// semicolons collapsed.
pub open spec fn css_common_text(s: Seq<char>) -> Seq<char> {
    let without_comments = regex_replace_all(CSS_COMMENT@, s, ""@);
    let minified = css_strip_whitespace(without_comments);
    regex_replace_all(CSS_MULTIPLE_SEMICOLON@, minified, ";"@)
}

/// Safe mode's text: the shared steps, then leading and trailing whitespace removed.
pub open spec fn css_safe_text(s: Seq<char>) -> Seq<char> {
    regex_replace_all(CSS_LEADING_TRAILING@, css_common_text(s), ""@)
}

/// Aggressive mode's text: the shared steps, the semicolon before each
/// closing brace removed, then trimmed.
pub open spec fn css_aggressive_text(s: Seq<char>) -> Seq<char> {
    trim(regex_replace_all(CSS_TRAILING_SEMICOLON@, css_common_text(s), "}"@))
}

/// Statistics with the given sizes and extra text and nothing else.
pub open spec fn plain_stats(st: MinifyStats, before: nat, after: nat, extra: Seq<char>) -> bool {
    &&& st.before_bytes == before
    &&& st.after_bytes == after
    &&& st.extra matches Some(e) && e@ == extra
    &&& st.lines is None
    &&& st.format_metrics is None
}

/// Input that the CSS plugin takes for CSS.
pub open spec fn css_detects(c: Seq<char>) -> bool {
    let excluded = contains(c, "<!DOCTYPE"@) || contains(c, "<html>"@) || contains(c, "<body"@)
        || contains(c, "function"@) || contains(c, "const "@) || contains(c, "let "@) || contains(
        c,
        "var "@,
    );
    let has_css_at_keyword = contains(c, "@import"@) || contains(c, "@media"@) || contains(
        c,
        "@keyframes"@,
    ) || contains(c, "@charset"@) || contains(c, "@font-face"@);
    let has_css_selectors = contains(c, "{"@) && (contains(c, "."@) || contains(c, "#"@)
        || contains(c, "*"@) || (c.len() > 0 && (alphabetic(c[0]) || c[0] == '*')));
    let has_css_properties = contains(c, ":"@) && (contains(c, ";"@) || contains(c, "{"@));
    !excluded && (has_css_at_keyword || (has_css_selectors && has_css_properties) || contains(
        c,
        "body {"@,
    ) || contains(c, ".class"@) || contains(c, "#id"@))
}

/// The five patterns of the shared steps, compiled.
struct CssPatterns {
    comment: Pattern,
    leading_trailing: Pattern,
    multiple_semicolon: Pattern,
}

/// Compiles a pattern, reporting a failure as a plugin error.
/// The error for a pattern that does not compile.
pub open spec fn regex_failure(e: MinifyError) -> bool {
    e matches MinifyError::PluginError(m) && m@ == "invalid regular expression"@
}

pub fn compile_pattern(pattern: &str) -> (r: Result<Pattern, MinifyError>)
    ensures
        r is Ok <==> regex_compiles(pattern@),
        r matches Ok(p) ==> p@ == pattern@,
        r matches Err(e) ==> regex_failure(e),
{
    match compile(pattern) {
        Ok(p) => Ok(p),
        Err(_) => Err(MinifyError::PluginError(string_from_str("invalid regular expression"))),
    }
}

fn compile_css_patterns() -> (r: Result<CssPatterns, MinifyError>)
    ensures
        r is Ok <==> css_patterns_compile(),
        r matches Ok(p) ==> p.comment@ == CSS_COMMENT@ && p.leading_trailing@
            == CSS_LEADING_TRAILING@ && p.multiple_semicolon@ == CSS_MULTIPLE_SEMICOLON@,
        r matches Err(e) ==> regex_failure(e),
{
    let comment = compile_pattern(CSS_COMMENT)?;
    let leading_trailing = compile_pattern(CSS_LEADING_TRAILING)?;
    let multiple_semicolon = compile_pattern(CSS_MULTIPLE_SEMICOLON)?;
    Ok(CssPatterns { comment, leading_trailing, multiple_semicolon })
}

fn common_steps(p: &CssPatterns, input: &[char]) -> (r: Vec<char>)
    requires
        p.comment@ == CSS_COMMENT@,
        p.multiple_semicolon@ == CSS_MULTIPLE_SEMICOLON@,
    ensures
        r@ == css_common_text(input@),
{
    let without_comments = replace_all(&p.comment, input, "");
    let minified = CSSPlugin::remove_whitespace_preserving_strings(without_comments.as_slice());
    replace_all(&p.multiple_semicolon, minified.as_slice(), ";")
}

pub struct CSSPlugin {
    last_stats: Option<MinifyStats>,
}

impl Default for CSSPlugin {
    fn default() -> (r: Self)
        ensures
            r.spec_stats() is None,
    {
        CSSPlugin::new()
    }
}

impl CSSPlugin {
    pub fn new() -> (r: Self)
        ensures
            r.spec_stats() is None,
    {
        CSSPlugin { last_stats: None }
    }

    /// Checks that braces and parentheses outside string literals balance.
    pub fn parse_css(&self, input: &str) -> (r: Result<(), MinifyError>)
        ensures
            r is Ok <==> balance_error(input@, false) is None,
            r matches Err(e) ==> e matches MinifyError::ParseError(m) && Some(m@) == balance_error(
                input@,
                false,
            ),
    {
        let chars = chars_of(input);
        check_balance(chars.as_slice(), false)
    }

    /// Removes whitespace outside string literals, keeping escaped characters.
    pub fn remove_whitespace_preserving_strings(input: &[char]) -> (r: Vec<char>)
        ensures
            r@ == css_strip_whitespace(input@),
    {
        let mut result: Vec<char> = Vec::new();
        let mut in_string = false;
        let mut quote: char = '\0';
        let mut escape_next = false;
        let mut i: usize = 0;
        while i < input.len()
            invariant
                i <= input.len(),
                css_strip_from(input@, i as int, CssScan { in_string, quote, escape_next }, result@)
                    == css_strip_whitespace(input@),
            decreases input.len() - i,
        {
            let ch = input[i];
            let ghost st0 = CssScan { in_string, quote, escape_next };
            let ghost out0 = result@;
            if escape_next {
                escape_next = false;
                result.push(ch);
            } else if ch == '\\' {
                escape_next = true;
                result.push(ch);
            } else if in_string {
                if ch == quote {
                    in_string = false;
                    quote = '\0';
                }
                result.push(ch);
            } else if ch == '"' || ch == '\'' {
                in_string = true;
                quote = ch;
                result.push(ch);
            } else if !is_white_space(ch) {
                result.push(ch);
            }
            assert(CssScan { in_string, quote, escape_next } == css_scan_state(st0, ch));
            assert(result@ == if css_keeps(st0, ch) {
                out0.push(ch)
            } else {
                out0
            });
            i += 1;
        }
        result
    }

    /// Safe mode: the input must balance; then the shared steps and the
    /// removal of leading and trailing whitespace.
    pub fn safe_minify(&mut self, input_bytes: &[u8]) -> (r: Result<Vec<u8>, MinifyError>)
        ensures
            ({
                let text = utf8_lossy(input_bytes@);
                match balance_error(text, false) {
                    Some(m) => r matches Err(e) && e matches MinifyError::ParseError(em) && em@ == m,
                    None => if css_patterns_compile() {
                        r matches Ok(out) && out@ == encode_utf8(css_safe_text(text))
                    } else {
                        r matches Err(e) && regex_failure(e)
                    },
                }
            }),
            r is Err ==> final(self).spec_stats() == old(self).spec_stats(),
            r matches Ok(out) ==> final(self).spec_stats() matches Some(st) && plain_stats(
                st,
                input_bytes@.len(),
                out@.len(),
                "comments removed, whitespace collapsed"@,
            ),
    {
        let original_size = input_bytes.len();
        let input = decode_lossy(input_bytes);
        check_balance(input.as_slice(), false)?;
        let p = compile_css_patterns()?;
        let cleaned_multi = common_steps(&p, input.as_slice());
        let output = replace_all(&p.leading_trailing, cleaned_multi.as_slice(), "");
        let output_bytes = encode(output.as_slice());
        self.last_stats = Some(
            MinifyStats::new(original_size, output_bytes.len()).with_extra(
                string_from_str("comments removed, whitespace collapsed"),
            ),
        );
        Ok(output_bytes)
    }

    /// Aggressive mode: no balance check; the shared steps, the semicolon
    /// before each closing brace removed, then trimmed.
    pub fn aggressive_minify(&mut self, input_bytes: &[u8]) -> (r: Result<Vec<u8>, MinifyError>)
        ensures
            (css_patterns_compile() && regex_compiles(CSS_TRAILING_SEMICOLON@)) <==> r is Ok,
            r matches Ok(out) ==> out@ == encode_utf8(css_aggressive_text(utf8_lossy(input_bytes@))),
            r matches Err(e) ==> regex_failure(e),
            r is Err ==> final(self).spec_stats() == old(self).spec_stats(),
            r matches Ok(out) ==> final(self).spec_stats() matches Some(st) && plain_stats(
                st,
                input_bytes@.len(),
                out@.len(),
                "aggressive: comments, whitespace, newlines removed"@,
            ),
    {
        let original_size = input_bytes.len();
        let input = decode_lossy(input_bytes);
        let p = compile_css_patterns()?;
        let cleaned_multi = common_steps(&p, input.as_slice());
        let trailing = compile_pattern(CSS_TRAILING_SEMICOLON)?;
        let no_trailing_semicolon = replace_all(&trailing, cleaned_multi.as_slice(), "}");
        let output = trimmed(no_trailing_semicolon.as_slice());
        let output_bytes = encode(output.as_slice());
        self.last_stats = Some(
            MinifyStats::new(original_size, output_bytes.len()).with_extra(
                string_from_str("aggressive: comments, whitespace, newlines removed"),
            ),
        );
        Ok(output_bytes)
    }
}

impl Minifier for CSSPlugin {
    open spec fn spec_name(&self) -> Seq<char> {
        "css"@
    }

    open spec fn spec_detect(&self, input: Seq<u8>) -> bool {
        input.len() > 0 && css_detects(utf8_lossy(input))
    }

    closed spec fn spec_stats(&self) -> Option<MinifyStats> {
        self.last_stats
    }

    open spec fn spec_error(&self, input: Seq<u8>, level: MinifyLevel, e: MinifyError) -> bool {
        let text = utf8_lossy(input);
        if input.len() == 0 {
            e matches MinifyError::ParseError(m) && m@ == "Empty input"@
        } else if level == MinifyLevel::Safe {
            match balance_error(text, false) {
                Some(msg) => e matches MinifyError::ParseError(m) && m@ == msg,
                None => regex_failure(e),
            }
        } else {
            regex_failure(e)
        }
    }

    open spec fn spec_output(&self, input: Seq<u8>, level: MinifyLevel) -> Option<Seq<u8>> {
        let text = utf8_lossy(input);
        if input.len() == 0 {
            None
        } else if level == MinifyLevel::Safe {
            if balance_error(text, false) is None && css_patterns_compile() {
                Some(encode_utf8(css_safe_text(text)))
            } else {
                None
            }
        } else if css_patterns_compile() && regex_compiles(CSS_TRAILING_SEMICOLON@) {
            Some(encode_utf8(css_aggressive_text(text)))
        } else {
            None
        }
    }

    fn name(&self) -> (r: &str) {
        "css"
    }

    fn detect(&self, input_bytes: &[u8]) -> (r: bool) {
        if input_bytes.len() == 0 {
            return false;
        }
        let content = decode_lossy(input_bytes);
        let c = content.as_slice();
        if contains_str(c, "<!DOCTYPE") || contains_str(c, "<html>") || contains_str(c, "<body")
            || contains_str(c, "function") || contains_str(c, "const ") || contains_str(c, "let ")
            || contains_str(c, "var ") {
            return false;
        }
        let has_css_at_keyword = contains_str(c, "@import") || contains_str(c, "@media")
            || contains_str(c, "@keyframes") || contains_str(c, "@charset") || contains_str(
            c,
            "@font-face",
        );
        let has_css_selectors = contains_str(c, "{") && (contains_str(c, ".") || contains_str(c, "#")
            || contains_str(c, "*") || (c.len() > 0 && (is_alphabetic(c[0]) || c[0] == '*')));
        let has_css_properties = contains_str(c, ":") && (contains_str(c, ";") || contains_str(
            c,
            "{",
        ));
        has_css_at_keyword || (has_css_selectors && has_css_properties) || contains_str(c, "body {")
            || contains_str(c, ".class") || contains_str(c, "#id")
    }

    fn minify(&mut self, input_bytes: &[u8], level: MinifyLevel) -> (r: Result<Vec<u8>, MinifyError>)
        ensures
            input_bytes@.len() == 0 ==> (r matches Err(e) && e matches MinifyError::ParseError(m)
                && m@ == "Empty input"@),
            input_bytes@.len() > 0 && level == MinifyLevel::Safe ==> (r is Ok <==> (balance_error(
                utf8_lossy(input_bytes@),
                false,
            ) is None && css_patterns_compile())) && (r matches Ok(out) ==> out@ == encode_utf8(
                css_safe_text(utf8_lossy(input_bytes@)),
            )),
            input_bytes@.len() > 0 && level == MinifyLevel::Safe ==> (balance_error(
                utf8_lossy(input_bytes@),
                false,
            ) matches Some(m) ==> r matches Err(e) && e matches MinifyError::ParseError(em) && em@ == m),
            input_bytes@.len() > 0 && level == MinifyLevel::Safe && balance_error(
                utf8_lossy(input_bytes@),
                false,
            ) is None ==> (r matches Err(e) ==> regex_failure(e)),
            input_bytes@.len() > 0 && level == MinifyLevel::Aggressive ==> (r matches Err(e) ==> regex_failure(e)),
            input_bytes@.len() > 0 && level == MinifyLevel::Aggressive ==> (r is Ok <==> (
            css_patterns_compile() && regex_compiles(CSS_TRAILING_SEMICOLON@))) && (r matches Ok(
                out,
            ) ==> out@ == encode_utf8(css_aggressive_text(utf8_lossy(input_bytes@)))),
    {
        if input_bytes.len() == 0 {
            return Err(MinifyError::ParseError(string_from_str("Empty input")));
        }
        match level {
            MinifyLevel::Safe => self.safe_minify(input_bytes),
            MinifyLevel::Aggressive => self.aggressive_minify(input_bytes),
        }
    }

    fn stats(&self) -> (r: Option<MinifyStats>) {
        self.last_stats.clone()
    }
}

} // verus!
