//! The JavaScript plugin: a bracket-balance check, comment removal and
//! whitespace removal that leave string literals (single, double and
//! backtick quoted), escaped characters and regular-expression literals as
//! they are, and, in aggressive mode, shorter names for three common globals.

use vstd::prelude::*;
use vstd::utf8::encode_utf8;
use vstd::wrapping::usize_specs;
use crate::balance::{
    balance_error, balance_scan, balance_step, check_balance, initial_scan, opens_string, BalanceScan,
};
use crate::minifier::{Minifier, MinifyError, MinifyLevel};
use crate::stats::{FormatMetrics, MinifyStats};
use crate::strings::{chars_of, decode_lossy, encode, is_white_space, string_of, unicode_white_space, utf8_lossy};
use crate::text::{
    append_str, contains, contains_str, count_matches, count_str, decimal, line_count, lines_in,
    push_decimal, replace_all, replace_str, string_from_str, trim, trimmed,
};
use crate::text::{
    lemma_replace_from_shrinks, lemma_trim_shrinks, occurs_at, replace_from, trim_end, trim_start,
};

verus! {

/// Characters after which a `/` is taken to open a regular-expression literal.
pub open spec fn could_be_regex_start(c: char) -> bool {
    c == '=' || c == '(' || c == '[' || c == ',' || c == ':' || c == ';' || c == '!' || c == '&'
        || c == '|' || c == '?' || c == '+' || c == '-' || c == '*' || c == '/' || c == '%' || c
        == '{' || c == '}' || c == '\n' || c == '\r'
}

impl Default for JavaScriptPlugin {
    fn default() -> (r: Self)
        ensures
            r.spec_stats() is None,
    {
        JavaScriptPlugin::new()
    }
}

impl JavaScriptPlugin {
    /// Whether a `/` after this character opens a regular-expression literal.
    pub fn could_be_regex_start(c: char) -> (r: bool)
        ensures
            r == could_be_regex_start(c),
    {
        c == '=' || c == '(' || c == '[' || c == ',' || c == ':' || c == ';' || c == '!' || c == '&'
            || c == '|' || c == '?' || c == '+' || c == '-' || c == '*' || c == '/' || c == '%' || c
            == '{' || c == '}' || c == '\n' || c == '\r'
    }
}

pub open spec fn is_js_quote(c: char) -> bool {
    c == '"' || c == '\'' || c == '`'
}

/// The last character of a sequence, or NUL for the empty sequence.
pub open spec fn last_or_nul(s: Seq<char>) -> char {
    if s.len() == 0 {
        '\0'
    } else {
        s.last()
    }
}

#[derive(PartialEq, Eq, Structural, Clone, Copy)]
pub enum ScanMode {
    Code,
    LineComment,
    BlockComment,
}

/// State of the comment-removal pass.
pub struct CommentScan {
    pub mode: ScanMode,
    pub in_string: bool,
    pub quote: char,
    pub escape_next: bool,
    pub in_regex: bool,
}

pub open spec fn comment_scan_start() -> CommentScan {
    CommentScan {
        mode: ScanMode::Code,
        in_string: false,
        quote: '\0',
        escape_next: false,
        in_regex: false,
    }
}

/// Comment removal from index `i` on, in state `st`, after having written
/// `out`. A `//` comment is dropped up to and including the next line break;
/// a `/*` comment up to and including the next `*/` (or to the end).
pub open spec fn strip_comments_from(s: Seq<char>, i: int, st: CommentScan, out: Seq<char>) -> Seq<
    char,
>
    decreases s.len() - i,
{
    if i < 0 || i >= s.len() {
        out
    } else {
        let c = s[i];
        match st.mode {
            ScanMode::LineComment => if c == '\n' || c == '\r' {
                strip_comments_from(s, i + 1, CommentScan { mode: ScanMode::Code, ..st }, out)
            } else {
                strip_comments_from(s, i + 1, st, out)
            },
            ScanMode::BlockComment => if c == '*' && i + 1 < s.len() && s[i + 1] == '/' {
                strip_comments_from(s, i + 2, CommentScan { mode: ScanMode::Code, ..st }, out)
            } else {
                strip_comments_from(s, i + 1, st, out)
            },
            ScanMode::Code => if st.escape_next {
                strip_comments_from(s, i + 1, CommentScan { escape_next: false, ..st }, out.push(c))
            } else if c == '\\' {
                strip_comments_from(s, i + 1, CommentScan { escape_next: true, ..st }, out.push(c))
            } else if st.in_string {
                let next = if c == st.quote {
                    CommentScan { in_string: false, ..st }
                } else {
                    st
                };
                strip_comments_from(s, i + 1, next, out.push(c))
            } else if st.in_regex {
                let next = if c == '/' {
                    CommentScan { in_regex: false, ..st }
                } else {
                    st
                };
                strip_comments_from(s, i + 1, next, out.push(c))
            } else if is_js_quote(c) {
                strip_comments_from(
                    s,
                    i + 1,
                    CommentScan { in_string: true, quote: c, ..st },
                    out.push(c),
                )
            } else if c == '/' && i + 1 < s.len() && s[i + 1] == '/' {
                strip_comments_from(s, i + 2, CommentScan { mode: ScanMode::LineComment, ..st }, out)
            } else if c == '/' && i + 1 < s.len() && s[i + 1] == '*' {
                strip_comments_from(s, i + 2, CommentScan { mode: ScanMode::BlockComment, ..st }, out)
            } else if c == '/' && i + 1 < s.len() {
                let next = if could_be_regex_start(last_or_nul(out)) {
                    CommentScan { in_regex: true, ..st }
                } else {
                    st
                };
                strip_comments_from(s, i + 1, next, out.push(c))
            } else {
                strip_comments_from(s, i + 1, st, out.push(c))
            },
        }
    }
}

pub proof fn lemma_strip_comments_from_len(s: Seq<char>, i: int, st: CommentScan, out: Seq<char>)
    requires
        0 <= i <= s.len(),
    ensures
        strip_comments_from(s, i, st, out).len() <= out.len() + (s.len() - i),
    decreases s.len() - i,
{
    if i < s.len() {
        let c = s[i];
        match st.mode {
            ScanMode::LineComment => if c == '\n' || c == '\r' {
                lemma_strip_comments_from_len(s, i + 1, CommentScan { mode: ScanMode::Code, ..st }, out);
            } else {
                lemma_strip_comments_from_len(s, i + 1, st, out);
            },
            ScanMode::BlockComment => if c == '*' && i + 1 < s.len() && s[i + 1] == '/' {
                lemma_strip_comments_from_len(s, i + 2, CommentScan { mode: ScanMode::Code, ..st }, out);
            } else {
                lemma_strip_comments_from_len(s, i + 1, st, out);
            },
            ScanMode::Code => if st.escape_next {
                lemma_strip_comments_from_len(s, i + 1, CommentScan { escape_next: false, ..st }, out.push(c));
            } else if c == '\\' {
                lemma_strip_comments_from_len(s, i + 1, CommentScan { escape_next: true, ..st }, out.push(c));
            } else if st.in_string {
                let next = if c == st.quote {
                    CommentScan { in_string: false, ..st }
                } else {
                    st
                };
                lemma_strip_comments_from_len(s, i + 1, next, out.push(c));
            } else if st.in_regex {
                let next = if c == '/' {
                    CommentScan { in_regex: false, ..st }
                } else {
                    st
                };
                lemma_strip_comments_from_len(s, i + 1, next, out.push(c));
            } else if is_js_quote(c) {
                lemma_strip_comments_from_len(s, i + 1, CommentScan { in_string: true, quote: c, ..st }, out.push(c));
            } else if c == '/' && i + 1 < s.len() && s[i + 1] == '/' {
                lemma_strip_comments_from_len(s, i + 2, CommentScan { mode: ScanMode::LineComment, ..st }, out);
            } else if c == '/' && i + 1 < s.len() && s[i + 1] == '*' {
                lemma_strip_comments_from_len(s, i + 2, CommentScan { mode: ScanMode::BlockComment, ..st }, out);
            } else if c == '/' && i + 1 < s.len() {
                let next = if could_be_regex_start(last_or_nul(out)) {
                    CommentScan { in_regex: true, ..st }
                } else {
                    st
                };
                lemma_strip_comments_from_len(s, i + 1, next, out.push(c));
            } else {
                lemma_strip_comments_from_len(s, i + 1, st, out.push(c));
            },
        }
    }
}

/// The input with its comments removed.
pub open spec fn strip_comments(s: Seq<char>) -> Seq<char> {
    strip_comments_from(s, 0, comment_scan_start(), Seq::empty())
}

/// Why minification refuses a text, or `None` when it accepts it: the
/// brackets must balance, and must still balance once the comments are
/// removed, so that the output balances too.
pub open spec fn js_minify_error(s: Seq<char>) -> Option<Seq<char>> {
    match balance_error(s, true) {
        Some(m) => Some(m),
        None => balance_error(strip_comments(s), true),
    }
}

impl JavaScriptPlugin {
    /// Removes `//` and `/* */` comments outside string and regular-expression
    /// literals.
    pub fn remove_comments_preserving_strings(input: &[char]) -> (r: Vec<char>)
        ensures
            r@ == strip_comments(input@),
    {
        let len = input.len();
        let mut out: Vec<char> = Vec::new();
        let mut mode = ScanMode::Code;
        let mut in_string = false;
        let mut quote: char = '\0';
        let mut escape_next = false;
        let mut in_regex = false;
        let mut i: usize = 0;
        while i < len
            invariant
                len == input@.len(),
                i <= len,
                strip_comments_from(
                    input@,
                    i as int,
                    CommentScan { mode, in_string, quote, escape_next, in_regex },
                    out@,
                ) == strip_comments(input@),
            decreases len - i,
        {
            let c = input[i];
            match mode {
                ScanMode::LineComment => {
                    if c == '\n' || c == '\r' {
                        mode = ScanMode::Code;
                    }
                    i += 1;
                },
                ScanMode::BlockComment => {
                    if c == '*' && i + 1 < len && input[i + 1] == '/' {
                        mode = ScanMode::Code;
                        i += 2;
                    } else {
                        i += 1;
                    }
                },
                ScanMode::Code => {
                    if escape_next {
                        escape_next = false;
                        out.push(c);
                        i += 1;
                    } else if c == '\\' {
                        escape_next = true;
                        out.push(c);
                        i += 1;
                    } else if in_string {
                        if c == quote {
                            in_string = false;
                        }
                        out.push(c);
                        i += 1;
                    } else if in_regex {
                        if c == '/' {
                            in_regex = false;
                        }
                        out.push(c);
                        i += 1;
                    } else if c == '"' || c == '\'' || c == '`' {
                        in_string = true;
                        quote = c;
                        out.push(c);
                        i += 1;
                    } else if c == '/' && i + 1 < len && input[i + 1] == '/' {
                        mode = ScanMode::LineComment;
                        i += 2;
                    } else if c == '/' && i + 1 < len && input[i + 1] == '*' {
                        mode = ScanMode::BlockComment;
                        i += 2;
                    } else if c == '/' && i + 1 < len {
                        let prev = if out.len() == 0 {
                            '\0'
                        } else {
                            out[out.len() - 1]
                        };
                        if Self::could_be_regex_start(prev) {
                            in_regex = true;
                        }
                        out.push(c);
                        i += 1;
                    } else {
                        out.push(c);
                        i += 1;
                    }
                },
            }
        }
        out
    }
}

/// State of the whitespace-removal pass.
pub struct SpaceScan {
    pub in_string: bool,
    pub quote: char,
    pub escape_next: bool,
    pub in_regex: bool,
    pub prev: char,
}

pub open spec fn space_scan_start() -> SpaceScan {
    SpaceScan { in_string: false, quote: '\0', escape_next: false, in_regex: false, prev: '\0' }
}

/// Characters of identifiers and numbers, after which a space is kept.
pub open spec fn is_word_char(c: char) -> bool {
    ('a' <= c && c <= 'z') || ('A' <= c && c <= 'Z') || ('0' <= c && c <= '9') || c == '_' || c
        == '$'
}

impl JavaScriptPlugin {
    /// Whether a space has to separate what was written from what follows:
    /// something has been written and the last character before the
    /// whitespace belongs to an identifier or number.
    pub fn needs_whitespace_separation(prev_char: char, result: &Vec<char>) -> (r: bool)
        ensures
            r == (result@.len() > 0 && is_word_char(prev_char)),
    {
        if result.len() == 0 {
            return false;
        }
        ('a' <= prev_char && prev_char <= 'z') || ('A' <= prev_char && prev_char <= 'Z') || ('0'
            <= prev_char && prev_char <= '9') || prev_char == '_' || prev_char == '$'
    }
}

pub open spec fn is_blank(c: char) -> bool {
    c == ' ' || c == '\t' || c == '\n' || c == '\r'
}

/// The whitespace-removal state after character `c`.
pub open spec fn squeeze_state(st: SpaceScan, c: char) -> SpaceScan {
    if st.escape_next {
        SpaceScan { escape_next: false, prev: c, ..st }
    } else if c == '\\' {
        SpaceScan { escape_next: true, prev: c, ..st }
    } else if st.in_string {
        if c == st.quote {
            SpaceScan { in_string: false, prev: c, ..st }
        } else {
            SpaceScan { prev: c, ..st }
        }
    } else if st.in_regex {
        if c == '/' {
            SpaceScan { in_regex: false, prev: c, ..st }
        } else {
            SpaceScan { prev: c, ..st }
        }
    } else {
        let st1 = if is_js_quote(c) {
            SpaceScan { in_string: true, quote: c, ..st }
        } else if c == '/' && could_be_regex_start(st.prev) {
            SpaceScan { in_regex: true, ..st }
        } else {
            st
        };
        if unicode_white_space(c) {
            st1
        } else {
            SpaceScan { prev: c, ..st1 }
        }
    }
}

/// The output after character `c`: literal and escaped characters are
/// copied; outside literals each space, tab or line break becomes one space
/// when something has been written and the last non-whitespace character
/// before it is a word character, and is dropped otherwise.
pub open spec fn squeeze_output(st: SpaceScan, c: char, out: Seq<char>) -> Seq<char> {
    if !st.escape_next && c != '\\' && !st.in_string && !st.in_regex && is_blank(c) {
        if out.len() > 0 && is_word_char(st.prev) {
            out.push(' ')
        } else {
            out
        }
    } else {
        out.push(c)
    }
}

/// Whitespace removal from index `i` on, in state `st`, after having written `out`.
pub open spec fn squeeze_from(s: Seq<char>, i: int, st: SpaceScan, out: Seq<char>) -> Seq<char>
    decreases s.len() - i,
{
    if i < 0 || i >= s.len() {
        out
    } else {
        squeeze_from(s, i + 1, squeeze_state(st, s[i]), squeeze_output(st, s[i], out))
    }
}

pub proof fn lemma_squeeze_from_len(s: Seq<char>, i: int, st: SpaceScan, out: Seq<char>)
    requires
        0 <= i <= s.len(),
    ensures
        squeeze_from(s, i, st, out).len() <= out.len() + (s.len() - i),
    decreases s.len() - i,
{
    if i < s.len() {
        lemma_squeeze_from_len(s, i + 1, squeeze_state(st, s[i]), squeeze_output(st, s[i], out));
    }
}

/// The whitespace-removal pass followed by trimming.
pub open spec fn squeeze_whitespace(s: Seq<char>) -> Seq<char> {
    trim(squeeze_from(s, 0, space_scan_start(), Seq::empty()))
}

impl JavaScriptPlugin {
    /// Removes whitespace outside literals, keeping one space where two words
    /// would otherwise run together, and trims the result.
    pub fn remove_whitespace_preserving_strings(input: &[char]) -> (r: Vec<char>)
        ensures
            r@ == squeeze_whitespace(input@),
    {
        let len = input.len();
        let mut out: Vec<char> = Vec::new();
        let mut in_string = false;
        let mut quote: char = '\0';
        let mut escape_next = false;
        let mut in_regex = false;
        let mut prev: char = '\0';
        let mut i: usize = 0;
        while i < len
            invariant
                len == input@.len(),
                i <= len,
                squeeze_from(
                    input@,
                    i as int,
                    SpaceScan { in_string, quote, escape_next, in_regex, prev },
                    out@,
                ) == squeeze_from(input@, 0, space_scan_start(), Seq::empty()),
            decreases len - i,
        {
            let c = input[i];
            let ghost st0 = SpaceScan { in_string, quote, escape_next, in_regex, prev };
            let ghost out0 = out@;
            if escape_next {
                escape_next = false;
                out.push(c);
                prev = c;
            } else if c == '\\' {
                escape_next = true;
                out.push(c);
                prev = c;
            } else if in_string {
                out.push(c);
                if c == quote {
                    in_string = false;
                }
                prev = c;
            } else if in_regex {
                out.push(c);
                if c == '/' {
                    in_regex = false;
                }
                prev = c;
            } else {
                if c == '"' || c == '\'' || c == '`' {
                    in_string = true;
                    quote = c;
                    out.push(c);
                } else if c == '/' {
                    if Self::could_be_regex_start(prev) {
                        in_regex = true;
                    }
                    out.push(c);
                } else if c == ' ' || c == '\t' || c == '\n' || c == '\r' {
                    if Self::needs_whitespace_separation(prev, &out) {
                        out.push(' ');
                    }
                } else {
                    out.push(c);
                }
                if !is_white_space(c) {
                    prev = c;
                }
            }
            assert(out@ == squeeze_output(st0, c, out0));
            assert(SpaceScan { in_string, quote, escape_next, in_regex, prev } == squeeze_state(st0, c));
            i += 1;
        }
        trimmed(out.as_slice())
    }
}

/// Difference `a - b` of two counts, wrapping around as unsigned machine
/// arithmetic does when `b` exceeds `a`.
pub open spec fn count_difference(a: nat, b: nat) -> usize {
    usize_specs::wrapping_sub(a as usize, b as usize)
}

/// The number of comments reported as removed: the drop in the number of
/// `//` plus the drop in the number of `/*`, in unsigned machine arithmetic.
pub open spec fn comments_removed_count(original: Seq<char>, after: Seq<char>) -> usize {
    usize_specs::wrapping_add(
        count_difference(count_matches(original, "//"@), count_matches(after, "//"@)),
        count_difference(count_matches(original, "/*"@), count_matches(after, "/*"@)),
    )
}

/// The text of aggressive mode: `console`, `document` and `window` replaced,
/// in this order, by `c`, `d` and `w`.
pub open spec fn shorten_globals(s: Seq<char>) -> Seq<char> {
    replace_all(replace_all(replace_all(s, "console"@, "c"@), "document"@, "d"@), "window"@, "w"@)
}

/// The number of identifiers reported as renamed: the drops in the number of
/// `console`, `document` and `window`, in unsigned machine arithmetic.
pub open spec fn identifier_changes(before: Seq<char>, after: Seq<char>) -> usize {
    usize_specs::wrapping_add(
        usize_specs::wrapping_add(
            count_difference(count_matches(before, "console"@), count_matches(after, "console"@)),
            count_difference(count_matches(before, "document"@), count_matches(after, "document"@)),
        ),
        count_difference(count_matches(before, "window"@), count_matches(after, "window"@)),
    )
}

/// Safe mode's text: comments removed, then whitespace removed.
pub open spec fn js_safe_text(s: Seq<char>) -> Seq<char> {
    squeeze_whitespace(strip_comments(s))
}

/// Aggressive mode's text.
pub open spec fn js_aggressive_text(s: Seq<char>) -> Seq<char> {
    shorten_globals(js_safe_text(s))
}

/// Statistics of a JavaScript minification.
/// An output character stands for an input character: it is the same
/// character, or a space standing for a space, tab or line break.
pub open spec fn stands_for(o: char, c: char) -> bool {
    o == c || (o == ' ' && is_blank(c))
}

/// `a` arises from `b` by deleting characters and turning spaces, tabs and
/// line breaks into spaces: the characters of `a` stand, in order, for
/// characters of `b`.
pub open spec fn embeds(a: Seq<char>, b: Seq<char>) -> bool
    decreases b.len(),
{
    if a.len() == 0 {
        true
    } else if b.len() == 0 {
        false
    } else if stands_for(a.last(), b.last()) {
        embeds(a.drop_last(), b.drop_last())
    } else {
        embeds(a, b.drop_last())
    }
}

pub proof fn lemma_embeds_drop_last(a: Seq<char>, b: Seq<char>)
    requires
        a.len() > 0,
        embeds(a, b),
    ensures
        embeds(a.drop_last(), b),
    decreases b.len(), 0int,
{
    if b.len() > 0 {
        let b1 = b.drop_last();
        assert(b1.push(b.last()) =~= b);
        if stands_for(a.last(), b.last()) {
            lemma_embeds_push_input(a.drop_last(), b1, b.last());
        } else {
            lemma_embeds_drop_last(a, b1);
            lemma_embeds_push_input(a.drop_last(), b1, b.last());
        }
    }
}

pub proof fn lemma_embeds_push_input(a: Seq<char>, b: Seq<char>, c: char)
    requires
        embeds(a, b),
    ensures
        embeds(a, b.push(c)),
    decreases b.len(), 1int,
{
    assert(b.push(c).drop_last() =~= b);
    if a.len() > 0 && stands_for(a.last(), c) {
        lemma_embeds_drop_last(a, b);
    }
}

pub proof fn lemma_embeds_push_both(a: Seq<char>, b: Seq<char>, o: char, c: char)
    requires
        embeds(a, b),
        stands_for(o, c),
    ensures
        embeds(a.push(o), b.push(c)),
{
    assert(a.push(o).drop_last() =~= a);
    assert(b.push(c).drop_last() =~= b);
}

pub proof fn lemma_embeds_refl(a: Seq<char>)
    ensures
        embeds(a, a),
    decreases a.len(),
{
    if a.len() > 0 {
        lemma_embeds_refl(a.drop_last());
    }
}

pub proof fn lemma_embeds_trans(a: Seq<char>, b: Seq<char>, c: Seq<char>)
    requires
        embeds(a, b),
        embeds(b, c),
    ensures
        embeds(a, c),
    decreases c.len(),
{
    if a.len() > 0 && c.len() > 0 {
        let c1 = c.drop_last();
        assert(c1.push(c.last()) =~= c);
        if stands_for(b.last(), c.last()) {
            if stands_for(a.last(), b.last()) {
                lemma_embeds_trans(a.drop_last(), b.drop_last(), c1);
            } else {
                lemma_embeds_trans(a, b.drop_last(), c1);
                lemma_embeds_push_input(a, c1, c.last());
            }
        } else {
            lemma_embeds_trans(a, b, c1);
            lemma_embeds_push_input(a, c1, c.last());
        }
    }
}

proof fn lemma_embeds_prepend_input(a: Seq<char>, b: Seq<char>, c: char)
    requires
        embeds(a, b),
    ensures
        embeds(a, seq![c] + b),
    decreases b.len(),
{
    if a.len() > 0 {
        if b.len() == 0 {
        } else {
            let b1 = b.drop_last();
            assert((seq![c] + b).drop_last() =~= seq![c] + b1);
            assert((seq![c] + b).last() == b.last());
            if stands_for(a.last(), b.last()) {
                lemma_embeds_prepend_input(a.drop_last(), b1, c);
            } else {
                lemma_embeds_prepend_input(a, b1, c);
            }
        }
    }
}

proof fn lemma_trim_embeds(s: Seq<char>)
    ensures
        embeds(trim_start(s), s),
        embeds(trim(s), s),
    decreases s.len(),
{
    if s.len() > 0 {
        lemma_trim_embeds(s.drop_first());
        assert(seq![s[0]] + s.drop_first() =~= s);
        if unicode_white_space(s[0]) {
            lemma_embeds_prepend_input(trim_start(s.drop_first()), s.drop_first(), s[0]);
        } else {
            lemma_embeds_refl(s);
        }
    } else {
        lemma_embeds_refl(s);
    }
    lemma_trim_embeds_end(trim_start(s));
    lemma_embeds_trans(trim(s), trim_start(s), s);
}

proof fn lemma_trim_embeds_end(s: Seq<char>)
    ensures
        embeds(trim_end(s), s),
    decreases s.len(),
{
    if s.len() > 0 {
        lemma_trim_embeds_end(s.drop_last());
        assert(s.drop_last().push(s.last()) =~= s);
        if unicode_white_space(s.last()) {
            lemma_embeds_push_input(trim_end(s.drop_last()), s.drop_last(), s.last());
        } else {
            lemma_embeds_refl(s);
        }
    } else {
        lemma_embeds_refl(s);
    }
}

proof fn lemma_strip_comments_from_embeds(s: Seq<char>, i: int, st: CommentScan, out: Seq<char>)
    requires
        0 <= i <= s.len(),
        embeds(out, s.take(i)),
    ensures
        embeds(strip_comments_from(s, i, st, out), s),
    decreases s.len() - i,
{
    if i == s.len() {
        assert(s.take(i) =~= s);
    } else {
        let c = s[i];
        assert(s.take(i).push(c) =~= s.take(i + 1));
        lemma_embeds_push_both(out, s.take(i), c, c);
        lemma_embeds_push_input(out, s.take(i), c);
        if i + 1 < s.len() {
            assert(s.take(i + 1).push(s[i + 1]) =~= s.take(i + 2));
            lemma_embeds_push_input(out, s.take(i + 1), s[i + 1]);
        }
        match st.mode {
            ScanMode::LineComment => if c == '\n' || c == '\r' {
                lemma_strip_comments_from_embeds(s, i + 1, CommentScan { mode: ScanMode::Code, ..st }, out);
            } else {
                lemma_strip_comments_from_embeds(s, i + 1, st, out);
            },
            ScanMode::BlockComment => if c == '*' && i + 1 < s.len() && s[i + 1] == '/' {
                lemma_strip_comments_from_embeds(s, i + 2, CommentScan { mode: ScanMode::Code, ..st }, out);
            } else {
                lemma_strip_comments_from_embeds(s, i + 1, st, out);
            },
            ScanMode::Code => if st.escape_next {
                lemma_strip_comments_from_embeds(s, i + 1, CommentScan { escape_next: false, ..st }, out.push(c));
            } else if c == '\\' {
                lemma_strip_comments_from_embeds(s, i + 1, CommentScan { escape_next: true, ..st }, out.push(c));
            } else if st.in_string {
                let next = if c == st.quote {
                    CommentScan { in_string: false, ..st }
                } else {
                    st
                };
                lemma_strip_comments_from_embeds(s, i + 1, next, out.push(c));
            } else if st.in_regex {
                let next = if c == '/' {
                    CommentScan { in_regex: false, ..st }
                } else {
                    st
                };
                lemma_strip_comments_from_embeds(s, i + 1, next, out.push(c));
            } else if is_js_quote(c) {
                lemma_strip_comments_from_embeds(s, i + 1, CommentScan { in_string: true, quote: c, ..st }, out.push(c));
            } else if c == '/' && i + 1 < s.len() && s[i + 1] == '/' {
                lemma_strip_comments_from_embeds(s, i + 2, CommentScan { mode: ScanMode::LineComment, ..st }, out);
            } else if c == '/' && i + 1 < s.len() && s[i + 1] == '*' {
                lemma_strip_comments_from_embeds(s, i + 2, CommentScan { mode: ScanMode::BlockComment, ..st }, out);
            } else if c == '/' && i + 1 < s.len() {
                let next = if could_be_regex_start(last_or_nul(out)) {
                    CommentScan { in_regex: true, ..st }
                } else {
                    st
                };
                lemma_strip_comments_from_embeds(s, i + 1, next, out.push(c));
            } else {
                lemma_strip_comments_from_embeds(s, i + 1, st, out.push(c));
            },
        }
    }
}

proof fn lemma_squeeze_from_embeds(s: Seq<char>, i: int, st: SpaceScan, out: Seq<char>)
    requires
        0 <= i <= s.len(),
        embeds(out, s.take(i)),
    ensures
        embeds(squeeze_from(s, i, st, out), s),
    decreases s.len() - i,
{
    if i == s.len() {
        assert(s.take(i) =~= s);
    } else {
        let c = s[i];
        assert(s.take(i).push(c) =~= s.take(i + 1));
        lemma_embeds_push_both(out, s.take(i), c, c);
        lemma_embeds_push_input(out, s.take(i), c);
        if is_blank(c) {
            lemma_embeds_push_both(out, s.take(i), ' ', c);
        }
        lemma_squeeze_from_embeds(s, i + 1, squeeze_state(st, c), squeeze_output(st, c, out));
    }
}

/// Safe JavaScript minification only removes: every character of its
/// output is a character of the input, in the same order, except that a
/// space may stand for a space, tab or line break it replaced.
pub proof fn lemma_js_safe_only_removes(s: Seq<char>)
    ensures
        embeds(js_safe_text(s), s),
{
    let stripped = strip_comments(s);
    assert(s.take(0) =~= Seq::<char>::empty());
    lemma_strip_comments_from_embeds(s, 0, comment_scan_start(), Seq::empty());
    assert(stripped.take(0) =~= Seq::<char>::empty());
    lemma_squeeze_from_embeds(stripped, 0, space_scan_start(), Seq::empty());
    let squeezed = squeeze_from(stripped, 0, space_scan_start(), Seq::empty());
    lemma_trim_embeds(squeezed);
    lemma_embeds_trans(squeezed, stripped, s);
    lemma_embeds_trans(js_safe_text(s), squeezed, s);
}

/// Characters that neither pass treats specially: no quote, backslash or
/// slash.
pub open spec fn js_plain(c: char) -> bool {
    !is_js_quote(c) && c != '\\' && c != '/'
}

/// The whitespace pass's state after the characters of `s` from index `i` on.
pub open spec fn squeeze_state_from(s: Seq<char>, i: int, st: SpaceScan) -> SpaceScan
    decreases s.len() - i,
{
    if i < 0 || i >= s.len() {
        st
    } else {
        squeeze_state_from(s, i + 1, squeeze_state(st, s[i]))
    }
}

proof fn lemma_squeeze_from_shift(a: Seq<char>, b: Seq<char>, k: int, st: SpaceScan, out: Seq<char>)
    requires
        0 <= k <= b.len(),
    ensures
        squeeze_from(a + b, a.len() + k, st, out) == squeeze_from(b, k, st, out),
    decreases b.len() - k,
{
    if k < b.len() {
        assert((a + b)[a.len() + k] == b[k]);
        let c = b[k];
        lemma_squeeze_from_shift(a, b, k + 1, squeeze_state(st, c), squeeze_output(st, c, out));
    }
}

proof fn lemma_squeeze_from_concat(a: Seq<char>, b: Seq<char>, i: int, st: SpaceScan, out: Seq<char>)
    requires
        0 <= i <= a.len(),
    ensures
        squeeze_from(a + b, i, st, out) == squeeze_from(
            b,
            0,
            squeeze_state_from(a, i, st),
            squeeze_from(a, i, st, out),
        ),
    decreases a.len() - i,
{
    if i == a.len() {
        lemma_squeeze_from_shift(a, b, 0, st, out);
    } else {
        assert((a + b)[i] == a[i]);
        let c = a[i];
        lemma_squeeze_from_concat(a, b, i + 1, squeeze_state(st, c), squeeze_output(st, c, out));
    }
}

proof fn lemma_squeeze_state_plain(s: Seq<char>, i: int, st: SpaceScan)
    requires
        !st.in_string && !st.escape_next && !st.in_regex,
        forall|k: int| 0 <= k < s.len() ==> js_plain(s[k]),
    ensures
        ({
            let st1 = squeeze_state_from(s, i, st);
            !st1.in_string && !st1.escape_next && !st1.in_regex
        }),
    decreases s.len() - i,
{
    if 0 <= i < s.len() {
        lemma_squeeze_state_plain(s, i + 1, squeeze_state(st, s[i]));
    }
}

proof fn lemma_squeeze_in_string(s: Seq<char>, i: int, j: int, st: SpaceScan, out: Seq<char>)
    requires
        0 <= i <= j <= s.len(),
        st.in_string,
        !st.escape_next,
        forall|k: int| i <= k < j ==> s[k] != st.quote && s[k] != '\\',
    ensures
        squeeze_from(s, i, st, out) == squeeze_from(
            s,
            j,
            SpaceScan { prev: if i < j { s[j - 1] } else { st.prev }, ..st },
            out + s.subrange(i, j),
        ),
    decreases j - i,
{
    if i == j {
        assert(out + s.subrange(i, j) =~= out);
        assert(SpaceScan { prev: st.prev, ..st } == st);
    } else {
        let st1 = SpaceScan { prev: s[i], ..st };
        assert(squeeze_state(st, s[i]) == st1);
        lemma_squeeze_in_string(s, i + 1, j, st1, out.push(s[i]));
        assert(out.push(s[i]) + s.subrange(i + 1, j) =~= out + s.subrange(i, j));
    }
}

proof fn lemma_squeeze_from_prefix(s: Seq<char>, i: int, st: SpaceScan, out: Seq<char>)
    ensures
        extends(squeeze_from(s, i, st, out), out),
    decreases s.len() - i,
{
    if 0 <= i < s.len() {
        let o1 = squeeze_output(st, s[i], out);
        lemma_squeeze_from_prefix(s, i + 1, squeeze_state(st, s[i]), o1);
        assert(o1.subrange(0, out.len() as int) =~= out);
        lemma_extends_step(out, o1, squeeze_from(s, i, st, out));
    } else {
        assert(out.subrange(0, out.len() as int) =~= out);
    }
}

/// `r` starts with `out`.
pub open spec fn extends(r: Seq<char>, out: Seq<char>) -> bool {
    out.len() <= r.len() && r.subrange(0, out.len() as int) == out
}

proof fn lemma_extends_step(out: Seq<char>, o1: Seq<char>, r: Seq<char>)
    requires
        o1 == out || (o1.len() == out.len() + 1 && o1.subrange(0, out.len() as int) == out),
        extends(r, o1),
    ensures
        extends(r, out),
{
    assert(r.subrange(0, out.len() as int) =~= r.subrange(0, o1.len() as int).subrange(
        0,
        out.len() as int,
    ));
}

proof fn lemma_strip_comments_from_prefix(s: Seq<char>, i: int, st: CommentScan, out: Seq<char>)
    ensures
        extends(strip_comments_from(s, i, st, out), out),
    decreases s.len() - i,
{
    let res = strip_comments_from(s, i, st, out);
    if i < 0 || i >= s.len() {
        assert(out.subrange(0, out.len() as int) =~= out);
    } else {
        let c = s[i];
        let pushed = out.push(c);
        assert(pushed.subrange(0, out.len() as int) =~= out);
        match st.mode {
            ScanMode::LineComment => if c == '\n' || c == '\r' {
                lemma_strip_comments_from_prefix(s, i + 1, CommentScan { mode: ScanMode::Code, ..st }, out);
            } else {
                lemma_strip_comments_from_prefix(s, i + 1, st, out);
            },
            ScanMode::BlockComment => if c == '*' && i + 1 < s.len() && s[i + 1] == '/' {
                lemma_strip_comments_from_prefix(s, i + 2, CommentScan { mode: ScanMode::Code, ..st }, out);
            } else {
                lemma_strip_comments_from_prefix(s, i + 1, st, out);
            },
            ScanMode::Code => if st.escape_next {
                let st1 = CommentScan { escape_next: false, ..st };
                lemma_strip_comments_from_prefix(s, i + 1, st1, pushed);
                lemma_extends_step(out, pushed, res);
            } else if c == '\\' {
                let st1 = CommentScan { escape_next: true, ..st };
                lemma_strip_comments_from_prefix(s, i + 1, st1, pushed);
                lemma_extends_step(out, pushed, res);
            } else if st.in_string {
                let next = if c == st.quote {
                    CommentScan { in_string: false, ..st }
                } else {
                    st
                };
                lemma_strip_comments_from_prefix(s, i + 1, next, pushed);
                lemma_extends_step(out, pushed, res);
            } else if st.in_regex {
                let next = if c == '/' {
                    CommentScan { in_regex: false, ..st }
                } else {
                    st
                };
                lemma_strip_comments_from_prefix(s, i + 1, next, pushed);
                lemma_extends_step(out, pushed, res);
            } else if is_js_quote(c) {
                let st1 = CommentScan { in_string: true, quote: c, ..st };
                lemma_strip_comments_from_prefix(s, i + 1, st1, pushed);
                lemma_extends_step(out, pushed, res);
            } else if c == '/' && i + 1 < s.len() && s[i + 1] == '/' {
                lemma_strip_comments_from_prefix(s, i + 2, CommentScan { mode: ScanMode::LineComment, ..st }, out);
            } else if c == '/' && i + 1 < s.len() && s[i + 1] == '*' {
                lemma_strip_comments_from_prefix(s, i + 2, CommentScan { mode: ScanMode::BlockComment, ..st }, out);
            } else if c == '/' && i + 1 < s.len() {
                let next = if could_be_regex_start(last_or_nul(out)) {
                    CommentScan { in_regex: true, ..st }
                } else {
                    st
                };
                lemma_strip_comments_from_prefix(s, i + 1, next, pushed);
                lemma_extends_step(out, pushed, res);
            } else {
                lemma_strip_comments_from_prefix(s, i + 1, st, pushed);
                lemma_extends_step(out, pushed, res);
            },
        }
    }
}

proof fn lemma_strip_comments_from_shift(a: Seq<char>, r: Seq<char>, k: int, st: CommentScan, out: Seq<char>)
    requires
        0 <= k <= r.len(),
    ensures
        strip_comments_from(a + r, a.len() + k, st, out) == strip_comments_from(r, k, st, out),
    decreases r.len() - k,
{
    let s = a + r;
    let i = a.len() + k;
    if k < r.len() {
        let c = r[k];
        assert(s[i] == c);
        if k + 1 < r.len() {
            assert(s[i + 1] == r[k + 1]);
        }
        let pushed = out.push(c);
        match st.mode {
            ScanMode::LineComment => if c == '\n' || c == '\r' {
                lemma_strip_comments_from_shift(a, r, k + 1, CommentScan { mode: ScanMode::Code, ..st }, out);
            } else {
                lemma_strip_comments_from_shift(a, r, k + 1, st, out);
            },
            ScanMode::BlockComment => if c == '*' && k + 1 < r.len() && r[k + 1] == '/' {
                lemma_strip_comments_from_shift(a, r, k + 2, CommentScan { mode: ScanMode::Code, ..st }, out);
            } else {
                lemma_strip_comments_from_shift(a, r, k + 1, st, out);
            },
            ScanMode::Code => if st.escape_next {
                lemma_strip_comments_from_shift(a, r, k + 1, CommentScan { escape_next: false, ..st }, pushed);
            } else if c == '\\' {
                lemma_strip_comments_from_shift(a, r, k + 1, CommentScan { escape_next: true, ..st }, pushed);
            } else if st.in_string {
                let next = if c == st.quote {
                    CommentScan { in_string: false, ..st }
                } else {
                    st
                };
                lemma_strip_comments_from_shift(a, r, k + 1, next, pushed);
            } else if st.in_regex {
                let next = if c == '/' {
                    CommentScan { in_regex: false, ..st }
                } else {
                    st
                };
                lemma_strip_comments_from_shift(a, r, k + 1, next, pushed);
            } else if is_js_quote(c) {
                lemma_strip_comments_from_shift(a, r, k + 1, CommentScan { in_string: true, quote: c, ..st }, pushed);
            } else if c == '/' && k + 1 < r.len() && r[k + 1] == '/' {
                lemma_strip_comments_from_shift(a, r, k + 2, CommentScan { mode: ScanMode::LineComment, ..st }, out);
            } else if c == '/' && k + 1 < r.len() && r[k + 1] == '*' {
                lemma_strip_comments_from_shift(a, r, k + 2, CommentScan { mode: ScanMode::BlockComment, ..st }, out);
            } else if c == '/' && k + 1 < r.len() {
                let next = if could_be_regex_start(last_or_nul(out)) {
                    CommentScan { in_regex: true, ..st }
                } else {
                    st
                };
                lemma_strip_comments_from_shift(a, r, k + 1, next, pushed);
            } else {
                lemma_strip_comments_from_shift(a, r, k + 1, st, pushed);
            },
        }
    }
}

proof fn lemma_strip_block_body(s: Seq<char>, i: int, j: int, st: CommentScan, out: Seq<char>)
    requires
        0 <= i <= j <= s.len(),
        st.mode == ScanMode::BlockComment,
        forall|k: int| i <= k < j ==> !(#[trigger] s[k] == '*' && k + 1 < s.len() && s[k + 1] == '/'),
    ensures
        strip_comments_from(s, i, st, out) == strip_comments_from(s, j, st, out),
    decreases j - i,
{
    if i < j {
        lemma_strip_block_body(s, i + 1, j, st, out);
    }
}

proof fn lemma_strip_line_body(s: Seq<char>, i: int, j: int, st: CommentScan, out: Seq<char>)
    requires
        0 <= i <= j <= s.len(),
        st.mode == ScanMode::LineComment,
        forall|k: int| i <= k < j ==> s[k] != '\n' && s[k] != '\r',
    ensures
        strip_comments_from(s, i, st, out) == strip_comments_from(s, j, st, out),
    decreases j - i,
{
    if i < j {
        lemma_strip_line_body(s, i + 1, j, st, out);
    }
}

/// A block comment outside literals is removed and leaves no trace: after
/// a text `p` free of quotes, backslashes and slashes, `/*` `c` `*/` (with
/// no `*/` inside `c`) goes, and what follows is treated as if the comment
/// had never been there.
pub proof fn lemma_js_block_comment_removed(p: Seq<char>, c: Seq<char>, r: Seq<char>)
    requires
        forall|k: int| 0 <= k < p.len() ==> js_plain(p[k]),
        forall|k: int| 0 <= k < c.len() - 1 ==> !(#[trigger] c[k] == '*' && c[k + 1] == '/'),
    ensures
        strip_comments(p + seq!['/', '*'] + c + seq!['*', '/'] + r) == strip_comments(p + r),
{
    let cm = seq!['/', '*'] + c + seq!['*', '/'];
    let s1 = p + cm + r;
    let s2 = p + r;
    assert(p + seq!['/', '*'] + c + seq!['*', '/'] + r =~= s1);
    let n = p.len() as int;
    let l = c.len() as int;
    let start = comment_scan_start();
    let e = Seq::<char>::empty();
    assert forall|k: int| 0 <= k < n implies js_plain(s1[k]) && js_plain(s2[k]) by {
        assert(s1[k] == p[k]);
        assert(s2[k] == p[k]);
    }
    lemma_strip_comments_plain(s1, 0, n, e);
    lemma_strip_comments_plain(s2, 0, n, e);
    assert(e + s1.subrange(0, n) =~= p);
    assert(e + s2.subrange(0, n) =~= p);
    // The comment.
    assert(s1[n] == '/' && s1[n + 1] == '*');
    let blk = CommentScan { mode: ScanMode::BlockComment, ..start };
    assert(strip_comments_from(s1, n, start, p) == strip_comments_from(s1, n + 2, blk, p));
    assert forall|k: int| n + 2 <= k < n + 2 + l implies !(#[trigger] s1[k] == '*' && k + 1 < s1.len()
        && s1[k + 1] == '/') by {
        assert(s1[k] == c[k - n - 2]);
        if k + 1 < n + 2 + l {
            assert(s1[k + 1] == c[k - n - 1]);
        } else {
            assert(s1[k + 1] == '*');
        }
    }
    lemma_strip_block_body(s1, n + 2, n + 2 + l, blk, p);
    assert(s1[n + 2 + l] == '*' && s1[n + 3 + l] == '/');
    assert(strip_comments_from(s1, n + 2 + l, blk, p) == strip_comments_from(s1, n + 4 + l, start, p));
    // What follows.
    assert(s1 =~= (p + cm) + r);
    lemma_strip_comments_from_shift(p + cm, r, 0, start, p);
    lemma_strip_comments_from_shift(p, r, 0, start, p);
}

/// A line comment outside literals is removed with the line break that
/// ends it: after a text `p` free of quotes, backslashes and slashes, `//`
/// `c` and a line break (with no line break inside `c`) go, and what
/// follows is treated as if the comment had never been there.
pub proof fn lemma_js_line_comment_removed(p: Seq<char>, c: Seq<char>, nl: char, r: Seq<char>)
    requires
        forall|k: int| 0 <= k < p.len() ==> js_plain(p[k]),
        forall|k: int| 0 <= k < c.len() ==> c[k] != '\n' && c[k] != '\r',
        nl == '\n' || nl == '\r',
    ensures
        strip_comments(p + seq!['/', '/'] + c + seq![nl] + r) == strip_comments(p + r),
{
    let cm = seq!['/', '/'] + c + seq![nl];
    let s1 = p + cm + r;
    let s2 = p + r;
    assert(p + seq!['/', '/'] + c + seq![nl] + r =~= s1);
    let n = p.len() as int;
    let l = c.len() as int;
    let start = comment_scan_start();
    let e = Seq::<char>::empty();
    assert forall|k: int| 0 <= k < n implies js_plain(s1[k]) && js_plain(s2[k]) by {
        assert(s1[k] == p[k]);
        assert(s2[k] == p[k]);
    }
    lemma_strip_comments_plain(s1, 0, n, e);
    lemma_strip_comments_plain(s2, 0, n, e);
    assert(e + s1.subrange(0, n) =~= p);
    assert(e + s2.subrange(0, n) =~= p);
    // The comment.
    assert(s1[n] == '/' && s1[n + 1] == '/');
    let line = CommentScan { mode: ScanMode::LineComment, ..start };
    assert(strip_comments_from(s1, n, start, p) == strip_comments_from(s1, n + 2, line, p));
    assert forall|k: int| n + 2 <= k < n + 2 + l implies s1[k] != '\n' && s1[k] != '\r' by {
        assert(s1[k] == c[k - n - 2]);
    }
    lemma_strip_line_body(s1, n + 2, n + 2 + l, line, p);
    assert(s1[n + 2 + l] == nl);
    assert(strip_comments_from(s1, n + 2 + l, line, p) == strip_comments_from(s1, n + 3 + l, start, p));
    // What follows.
    assert(s1 =~= (p + cm) + r);
    lemma_strip_comments_from_shift(p + cm, r, 0, start, p);
    lemma_strip_comments_from_shift(p, r, 0, start, p);
}

proof fn lemma_strip_comments_plain(s: Seq<char>, i: int, j: int, out: Seq<char>)
    requires
        0 <= i <= j <= s.len(),
        forall|k: int| i <= k < j ==> js_plain(s[k]),
    ensures
        strip_comments_from(s, i, comment_scan_start(), out) == strip_comments_from(
            s,
            j,
            comment_scan_start(),
            out + s.subrange(i, j),
        ),
    decreases j - i,
{
    if i == j {
        assert(out + s.subrange(i, j) =~= out);
    } else {
        lemma_strip_comments_plain(s, i + 1, j, out.push(s[i]));
        assert(out.push(s[i]) + s.subrange(i + 1, j) =~= out + s.subrange(i, j));
    }
}

proof fn lemma_strip_comments_in_string(s: Seq<char>, i: int, j: int, st: CommentScan, out: Seq<char>)
    requires
        0 <= i <= j <= s.len(),
        st.mode == ScanMode::Code,
        st.in_string,
        !st.escape_next,
        forall|k: int| i <= k < j ==> s[k] != st.quote && s[k] != '\\',
    ensures
        strip_comments_from(s, i, st, out) == strip_comments_from(s, j, st, out + s.subrange(i, j)),
    decreases j - i,
{
    if i == j {
        assert(out + s.subrange(i, j) =~= out);
    } else {
        lemma_strip_comments_in_string(s, i + 1, j, st, out.push(s[i]));
        assert(out.push(s[i]) + s.subrange(i + 1, j) =~= out + s.subrange(i, j));
    }
}

proof fn lemma_trim_start_from(a: Seq<char>, j: int) -> (k: int)
    requires
        0 <= j < a.len(),
        !unicode_white_space(a[j]),
    ensures
        0 <= k <= j,
        trim_start(a) == a.subrange(k, a.len() as int),
    decreases a.len(),
{
    if unicode_white_space(a[0]) {
        let k1 = lemma_trim_start_from(a.drop_first(), j - 1);
        assert(a.drop_first().subrange(k1, a.len() - 1) =~= a.subrange(k1 + 1, a.len() as int));
        k1 + 1
    } else {
        assert(a.subrange(0, a.len() as int) =~= a);
        0
    }
}

proof fn lemma_trim_end_from(a: Seq<char>, j: int) -> (k: int)
    requires
        0 <= j < a.len(),
        !unicode_white_space(a[j]),
    ensures
        j < k <= a.len(),
        trim_end(a) == a.subrange(0, k),
    decreases a.len(),
{
    if unicode_white_space(a.last()) {
        let k1 = lemma_trim_end_from(a.drop_last(), j);
        assert(a.drop_last().subrange(0, k1) =~= a.subrange(0, k1));
        k1
    } else {
        assert(a.subrange(0, a.len() as int) =~= a);
        a.len() as int
    }
}

/// A piece that starts and ends with a character other than whitespace
/// survives trimming.
proof fn lemma_trim_keeps_inner(x: Seq<char>, m: Seq<char>, y: Seq<char>)
    requires
        m.len() > 0,
        !unicode_white_space(m[0]),
        !unicode_white_space(m.last()),
    ensures
        contains(trim(x + m + y), m),
{
    let a = x + m + y;
    let n = x.len() as int;
    let l = m.len() as int;
    assert(a[n] == m[0]);
    assert(a[n + l - 1] == m.last());
    let k1 = lemma_trim_start_from(a, n);
    let b = trim_start(a);
    assert(b[n - k1 + l - 1] == m.last());
    let k2 = lemma_trim_end_from(b, n - k1 + l - 1);
    let c = trim(x + m + y);
    assert forall|k: int| 0 <= k < l implies c[n - k1 + k] == #[trigger] m[k] by {
        assert(a[n + k] == m[k]);
    }
    assert(occurs_at(c, m, n - k1));
}

/// Both passes copy a string literal verbatim, backtick template literals
/// included: for a quote character `q` and content `t` without `q` or a
/// backslash, the literal `q t q` appears unchanged in the output of the
/// whitespace pass and in the output of safe minification, after any text
/// `p` free of quotes, backslashes and slashes, and whatever follows.
pub proof fn lemma_js_string_literal_kept(p: Seq<char>, q: char, t: Seq<char>, r: Seq<char>)
    requires
        is_js_quote(q),
        forall|k: int| 0 <= k < p.len() ==> js_plain(p[k]),
        forall|k: int| 0 <= k < t.len() ==> t[k] != q && t[k] != '\\',
    ensures
        contains(squeeze_whitespace(p + seq![q] + t + seq![q] + r), seq![q] + t + seq![q]),
        contains(js_safe_text(p + seq![q] + t + seq![q] + r), seq![q] + t + seq![q]),
{
    lemma_squeeze_keeps_literal(p, q, t, r);
    // Comment removal copies `p` and the literal.
    let lit = seq![q] + t + seq![q];
    let s = p + seq![q] + t + seq![q] + r;
    let n = p.len() as int;
    let m = t.len() as int;
    assert(s =~= p + lit + r);
    assert forall|k: int| 0 <= k < n implies js_plain(s[k]) by {
        assert(s[k] == p[k]);
    }
    let e = Seq::<char>::empty();
    let start = comment_scan_start();
    lemma_strip_comments_plain(s, 0, n, e);
    assert(e + s.subrange(0, n) =~= p);
    assert(s[n] == q);
    let sq = CommentScan { in_string: true, quote: q, ..start };
    assert(strip_comments_from(s, n, start, p) == strip_comments_from(s, n + 1, sq, p.push(q)));
    assert forall|k: int| n + 1 <= k < n + 1 + m implies s[k] != sq.quote && s[k] != '\\' by {
        assert(s[k] == t[k - n - 1]);
    }
    lemma_strip_comments_in_string(s, n + 1, n + 1 + m, sq, p.push(q));
    assert(s.subrange(n + 1, n + 1 + m) =~= t);
    assert(s[n + 1 + m] == q);
    let done = p.push(q) + t;
    let sc = CommentScan { in_string: false, ..sq };
    assert(strip_comments_from(s, n + 1 + m, sq, done) == strip_comments_from(
        s,
        n + 2 + m,
        sc,
        done.push(q),
    ));
    assert(done.push(q) =~= p + lit);
    lemma_strip_comments_from_prefix(s, n + 2 + m, sc, p + lit);
    let stripped = strip_comments(s);
    let y = stripped.subrange(n + 2 + m, stripped.len() as int);
    assert(stripped =~= p + lit + y) by {
        assert(stripped.subrange(0, n + 2 + m) == p + lit);
    }
    assert(stripped =~= p + seq![q] + t + seq![q] + y);
    lemma_squeeze_keeps_literal(p, q, t, y);
}

proof fn lemma_squeeze_step(s: Seq<char>, i: int, st: SpaceScan, out: Seq<char>)
    requires
        0 <= i < s.len(),
    ensures
        squeeze_from(s, i, st, out) == squeeze_from(
            s,
            i + 1,
            squeeze_state(st, s[i]),
            squeeze_output(st, s[i], out),
        ),
{
}

proof fn lemma_squeeze_end(s: Seq<char>, i: int, st: SpaceScan, out: Seq<char>)
    requires
        i >= s.len(),
    ensures
        squeeze_from(s, i, st, out) == out,
{
}

proof fn lemma_squeeze_keeps_literal(p: Seq<char>, q: char, t: Seq<char>, r: Seq<char>)
    requires
        is_js_quote(q),
        forall|k: int| 0 <= k < p.len() ==> js_plain(p[k]),
        forall|k: int| 0 <= k < t.len() ==> t[k] != q && t[k] != '\\',
    ensures
        contains(squeeze_whitespace(p + seq![q] + t + seq![q] + r), seq![q] + t + seq![q]),
{
    let lit = seq![q] + t + seq![q];
    let rest = lit + r;
    let s = p + seq![q] + t + seq![q] + r;
    assert(s =~= p + rest);
    let start = space_scan_start();
    let e = Seq::<char>::empty();
    lemma_squeeze_from_concat(p, rest, 0, start, e);
    lemma_squeeze_state_plain(p, 0, start);
    let st0 = squeeze_state_from(p, 0, start);
    let x = squeeze_from(p, 0, start, e);
    // The opening quote.
    assert(rest[0] == q);
    assert(!unicode_white_space(q));
    let sq = SpaceScan { in_string: true, quote: q, prev: q, ..st0 };
    assert(squeeze_state(st0, q) == sq);
    assert(squeeze_output(st0, q, x) == x.push(q));
    // The content.
    let m = t.len() as int;
    assert forall|k: int| 1 <= k < 1 + m implies rest[k] != sq.quote && rest[k] != '\\' by {
        assert(rest[k] == t[k - 1]);
    }
    lemma_squeeze_in_string(rest, 1, 1 + m, sq, x.push(q));
    assert(rest.subrange(1, 1 + m) =~= t);
    let sq2 = SpaceScan { prev: if 1 < 1 + m { rest[m] } else { sq.prev }, ..sq };
    // The closing quote.
    assert(lit.len() == m + 2);
    assert(rest.len() == m + 2 + r.len());
    assert(rest[1 + m] == q);
    let y = x.push(q) + t;
    assert(squeeze_output(sq2, q, y) == y.push(q));
    let sc = squeeze_state(sq2, q);
    lemma_squeeze_step(rest, 1 + m, sq2, y);
    assert(y.push(q) =~= x + lit);
    lemma_squeeze_from_prefix(rest, 2 + m, sc, x + lit);
    let out = squeeze_from(rest, 2 + m, sc, x + lit);
    let z = out.subrange((x + lit).len() as int, out.len() as int);
    assert(out =~= x + lit + z) by {
        assert(out.subrange(0, (x + lit).len() as int) == x + lit);
    }
    assert(lit[0] == q && lit.last() == q);
    lemma_trim_keeps_inner(x, lit, z);
}

proof fn lemma_squeeze_in_regex(s: Seq<char>, i: int, j: int, st: SpaceScan, out: Seq<char>)
    requires
        0 <= i <= j <= s.len(),
        !st.in_string,
        st.in_regex,
        !st.escape_next,
        forall|k: int| i <= k < j ==> s[k] != '/' && s[k] != '\\',
    ensures
        squeeze_from(s, i, st, out) == squeeze_from(
            s,
            j,
            SpaceScan { prev: if i < j { s[j - 1] } else { st.prev }, ..st },
            out + s.subrange(i, j),
        ),
    decreases j - i,
{
    if i == j {
        assert(out + s.subrange(i, j) =~= out);
        assert(SpaceScan { prev: st.prev, ..st } == st);
    } else {
        let st1 = SpaceScan { prev: s[i], ..st };
        assert(squeeze_state(st, s[i]) == st1);
        lemma_squeeze_in_regex(s, i + 1, j, st1, out.push(s[i]));
        assert(out.push(s[i]) + s.subrange(i + 1, j) =~= out + s.subrange(i, j));
    }
}

proof fn lemma_squeeze_state_last(s: Seq<char>, i: int, st: SpaceScan)
    requires
        0 <= i < s.len(),
        !st.in_string && !st.escape_next && !st.in_regex,
        forall|k: int| 0 <= k < s.len() ==> js_plain(s[k]),
        !unicode_white_space(s.last()),
    ensures
        squeeze_state_from(s, i, st).prev == s.last(),
    decreases s.len() - i,
{
    let st1 = squeeze_state(st, s[i]);
    assert(js_plain(s[i]));
    if i + 1 < s.len() {
        lemma_squeeze_state_last(s, i + 1, st1);
    } else {
        assert(s[i] == s.last());
        assert(squeeze_state_from(s, i + 1, st1) == st1);
    }
}

/// A regular-expression literal is copied verbatim: after a text `p` free
/// of quotes, backslashes and slashes whose last character may precede a
/// regular expression, a literal `/ v /` (with no slash or backslash in
/// `v`, spaces included) appears unchanged in the output of the whitespace
/// pass, whatever follows.
pub proof fn lemma_js_regex_literal_kept(p: Seq<char>, v: Seq<char>, r: Seq<char>)
    requires
        p.len() > 0,
        forall|k: int| 0 <= k < p.len() ==> js_plain(p[k]),
        !unicode_white_space(p.last()),
        could_be_regex_start(p.last()),
        forall|k: int| 0 <= k < v.len() ==> v[k] != '/' && v[k] != '\\',
    ensures
        contains(squeeze_whitespace(p + seq!['/'] + v + seq!['/'] + r), seq!['/'] + v + seq!['/']),
{
    let lit = seq!['/'] + v + seq!['/'];
    let rest = lit + r;
    let s = p + seq!['/'] + v + seq!['/'] + r;
    assert(s =~= p + rest);
    let start = space_scan_start();
    let e = Seq::<char>::empty();
    lemma_squeeze_from_concat(p, rest, 0, start, e);
    lemma_squeeze_state_plain(p, 0, start);
    lemma_squeeze_state_last(p, 0, start);
    let st0 = squeeze_state_from(p, 0, start);
    let x = squeeze_from(p, 0, start, e);
    // The opening slash.
    assert(rest[0] == '/');
    let sr = SpaceScan { in_regex: true, prev: '/', ..st0 };
    assert(squeeze_state(st0, '/') == sr);
    assert(squeeze_output(st0, '/', x) == x.push('/'));
    lemma_squeeze_step(rest, 0, st0, x);
    // The body.
    let m = v.len() as int;
    assert forall|k: int| 1 <= k < 1 + m implies rest[k] != '/' && rest[k] != '\\' by {
        assert(rest[k] == v[k - 1]);
    }
    lemma_squeeze_in_regex(rest, 1, 1 + m, sr, x.push('/'));
    assert(rest.subrange(1, 1 + m) =~= v);
    let sr2 = SpaceScan { prev: if 1 < 1 + m { rest[m] } else { sr.prev }, ..sr };
    // The closing slash.
    assert(lit.len() == m + 2);
    assert(rest.len() == m + 2 + r.len());
    assert(rest[1 + m] == '/');
    let y = x.push('/') + v;
    assert(squeeze_output(sr2, '/', y) == y.push('/'));
    let sc = squeeze_state(sr2, '/');
    lemma_squeeze_step(rest, 1 + m, sr2, y);
    assert(y.push('/') =~= x + lit);
    lemma_squeeze_from_prefix(rest, 2 + m, sc, x + lit);
    let out = squeeze_from(rest, 2 + m, sc, x + lit);
    let z = out.subrange((x + lit).len() as int, out.len() as int);
    assert(out =~= x + lit + z) by {
        assert(out.subrange(0, (x + lit).len() as int) == x + lit);
    }
    assert(lit[0] == '/' && lit.last() == '/');
    lemma_trim_keeps_inner(x, lit, z);
}

/// `n` spaces.
pub open spec fn spaces(n: int) -> Seq<char> {
    Seq::new(n as nat, |i: int| ' ')
}

proof fn lemma_squeeze_plain(s: Seq<char>, i: int, j: int, st: SpaceScan, out: Seq<char>)
    requires
        0 <= i <= j <= s.len(),
        !st.in_string && !st.escape_next && !st.in_regex,
        forall|k: int| i <= k < j ==> js_plain(s[k]) && !unicode_white_space(s[k]),
    ensures
        squeeze_from(s, i, st, out) == squeeze_from(
            s,
            j,
            SpaceScan { prev: if i < j { s[j - 1] } else { st.prev }, ..st },
            out + s.subrange(i, j),
        ),
    decreases j - i,
{
    if i == j {
        assert(out + s.subrange(i, j) =~= out);
        assert(SpaceScan { prev: st.prev, ..st } == st);
    } else {
        let st1 = SpaceScan { prev: s[i], ..st };
        assert(squeeze_state(st, s[i]) == st1);
        lemma_squeeze_plain(s, i + 1, j, st1, out.push(s[i]));
        assert(out.push(s[i]) + s.subrange(i + 1, j) =~= out + s.subrange(i, j));
    }
}

proof fn lemma_squeeze_blanks(s: Seq<char>, i: int, j: int, st: SpaceScan, out: Seq<char>)
    requires
        0 <= i <= j <= s.len(),
        !st.in_string && !st.escape_next && !st.in_regex,
        forall|k: int| i <= k < j ==> is_blank(s[k]),
    ensures
        squeeze_from(s, i, st, out) == squeeze_from(
            s,
            j,
            st,
            if out.len() > 0 && is_word_char(st.prev) {
                out + spaces(j - i)
            } else {
                out
            },
        ),
    decreases j - i,
{
    if i == j {
        assert(out + spaces(0) =~= out);
    } else {
        assert(squeeze_state(st, s[i]) == st);
        lemma_squeeze_blanks(s, i + 1, j, st, squeeze_output(st, s[i], out));
        if out.len() > 0 && is_word_char(st.prev) {
            assert(out.push(' ') + spaces(j - i - 1) =~= out + spaces(j - i));
        }
    }
}

/// Between two runs of characters that neither pass treats specially
/// (no quote, slash, backslash or whitespace), a run of spaces, tabs and
/// line breaks becomes as many spaces when the character before it belongs
/// to an identifier or a number, and disappears otherwise.
pub proof fn lemma_js_blanks_between_words(a: Seq<char>, b: Seq<char>, c: Seq<char>)
    requires
        a.len() > 0,
        c.len() > 0,
        forall|k: int| 0 <= k < a.len() ==> js_plain(a[k]) && !unicode_white_space(a[k]),
        forall|k: int| 0 <= k < b.len() ==> is_blank(b[k]),
        forall|k: int| 0 <= k < c.len() ==> js_plain(c[k]) && !unicode_white_space(c[k]),
    ensures
        squeeze_whitespace(a + b + c) == a + (if is_word_char(a.last()) {
            spaces(b.len() as int)
        } else {
            Seq::empty()
        }) + c,
{
    let s = a + b + c;
    let n = a.len() as int;
    let m = b.len() as int;
    let l = c.len() as int;
    let start = space_scan_start();
    assert forall|k: int| 0 <= k < n implies js_plain(s[k]) && !unicode_white_space(s[k]) by {
        assert(s[k] == a[k]);
    }
    assert forall|k: int| n <= k < n + m implies is_blank(s[k]) by {
        assert(s[k] == b[k - n]);
    }
    assert forall|k: int| n + m <= k < n + m + l implies js_plain(s[k]) && !unicode_white_space(
        s[k],
    ) by {
        assert(s[k] == c[k - n - m]);
    }
    let e = Seq::<char>::empty();
    lemma_squeeze_plain(s, 0, n, start, e);
    assert(e + s.subrange(0, n) =~= a);
    assert(s[n - 1] == a.last());
    let st_a = SpaceScan { prev: a.last(), ..start };
    lemma_squeeze_blanks(s, n, n + m, st_a, a);
    let mid = if is_word_char(a.last()) { spaces(m) } else { e };
    let am = if a.len() > 0 && is_word_char(st_a.prev) { a + spaces(m) } else { a };
    assert(am =~= a + mid);
    lemma_squeeze_plain(s, n + m, n + m + l, st_a, am);
    assert(s.subrange(n + m, n + m + l) =~= c);
    let res = am + c;
    assert(s.len() == n + m + l);
    lemma_squeeze_end(s, n + m + l, SpaceScan { prev: s[n + m + l - 1], ..st_a }, res);
    assert(res =~= a + mid + c);
    assert(res[0] == a[0]);
    assert(res.last() == c.last());
    assert(trim_start(res) == res);
    assert(trim_end(res) == res);
}

/// Characters that the bracket check passes over: no quote, backslash or
/// bracket.
pub open spec fn balance_neutral(c: char) -> bool {
    !opens_string(c, true) && c != '\\' && c != '{' && c != '}' && c != '(' && c != ')' && c
        != '[' && c != ']'
}

proof fn lemma_scan_quote(s: Seq<char>)
    ensures
        balance_scan(s, true) matches Some(b) ==> (b.in_string ==> opens_string(b.quote, true)),
    decreases s.len(),
{
    if s.len() > 0 {
        lemma_scan_quote(s.drop_last());
    }
}

/// A neutral character leaves the scan as it is, but for consuming a
/// pending escape.
proof fn lemma_neutral_step(b: BalanceScan, c: char)
    requires
        balance_neutral(c),
        b.in_string ==> opens_string(b.quote, true),
    ensures
        balance_step(b, c, true) == Some(
            if b.escape_next {
                BalanceScan { escape_next: false, ..b }
            } else {
                b
            },
        ),
{
}

proof fn lemma_scan_push(s: Seq<char>, c: char)
    ensures
        balance_scan(s.push(c), true) == match balance_scan(s, true) {
            Some(b) => balance_step(b, c, true),
            None => None,
        },
{
    assert(s.push(c).drop_last() =~= s);
}

proof fn lemma_squeeze_balance(c: Seq<char>, i: int, st: SpaceScan, out: Seq<char>)
    requires
        0 <= i <= c.len(),
        balance_scan(out, true) == balance_scan(c.take(i), true),
        balance_scan(c.take(i), true) matches Some(b) ==> b.escape_next == st.escape_next,
    ensures
        balance_scan(squeeze_from(c, i, st, out), true) == balance_scan(c, true),
    decreases c.len() - i,
{
    if i == c.len() {
        assert(c.take(i) =~= c);
    } else {
        let x = c[i];
        assert(c.take(i).push(x) =~= c.take(i + 1));
        lemma_scan_push(c.take(i), x);
        lemma_scan_push(out, x);
        lemma_scan_push(out, ' ');
        lemma_scan_quote(c.take(i));
        if let Some(b) = balance_scan(c.take(i), true) {
            if is_blank(x) {
                lemma_neutral_step(b, x);
                lemma_neutral_step(b, ' ');
            }
        }
        lemma_squeeze_balance(c, i + 1, squeeze_state(st, x), squeeze_output(st, x, out));
    }
}

proof fn lemma_neutral_prefix(p: Seq<char>, t: Seq<char>)
    requires
        balance_scan(p, true) == Some(initial_scan()),
    ensures
        balance_scan(p + t, true) == balance_scan(t, true),
    decreases t.len(),
{
    if t.len() == 0 {
        assert(p + t =~= p);
    } else {
        lemma_neutral_prefix(p, t.drop_last());
        assert((p + t).drop_last() =~= p + t.drop_last());
        assert((p + t).last() == t.last());
    }
}

proof fn lemma_trim_start_balance(s: Seq<char>)
    ensures
        balance_scan(trim_start(s), true) == balance_scan(s, true),
    decreases s.len(),
{
    if s.len() > 0 && unicode_white_space(s[0]) {
        lemma_trim_start_balance(s.drop_first());
        let w = seq![s[0]];
        lemma_scan_push(Seq::empty(), s[0]);
        assert(Seq::<char>::empty().push(s[0]) =~= w);
        lemma_neutral_step(initial_scan(), s[0]);
        assert(w + s.drop_first() =~= s);
        lemma_neutral_prefix(w, s.drop_first());
    }
}

proof fn lemma_trim_end_balance(s: Seq<char>)
    requires
        balance_scan(s, true) matches Some(b) && b.braces == 0 && b.parens == 0 && b.brackets == 0,
    ensures
        balance_scan(trim_end(s), true) matches Some(b) && b.braces == 0 && b.parens == 0
            && b.brackets == 0,
    decreases s.len(),
{
    if s.len() > 0 && unicode_white_space(s.last()) {
        let r = s.drop_last();
        assert(r.push(s.last()) =~= s);
        lemma_scan_push(r, s.last());
        lemma_scan_quote(r);
        if let Some(b) = balance_scan(r, true) {
            lemma_neutral_step(b, s.last());
        }
        lemma_trim_end_balance(r);
    }
}

/// Safe JavaScript minification keeps well-formed input well formed: the
/// output of an input that minification accepts passes the bracket check.
pub proof fn lemma_js_safe_output_well_formed(s: Seq<char>)
    requires
        js_minify_error(s) is None,
    ensures
        balance_error(js_safe_text(s), true) is None,
{
    let c = strip_comments(s);
    assert(c.take(0) =~= Seq::<char>::empty());
    lemma_squeeze_balance(c, 0, space_scan_start(), Seq::empty());
    let sq = squeeze_from(c, 0, space_scan_start(), Seq::empty());
    lemma_trim_start_balance(sq);
    lemma_trim_end_balance(trim_start(sq));
}

pub proof fn lemma_encode_concat(a: Seq<char>, b: Seq<char>)
    ensures
        encode_utf8(a + b) == encode_utf8(a) + encode_utf8(b),
    decreases a.len(),
{
    if a.len() == 0 {
        assert(a + b =~= b);
        assert(encode_utf8(a) + encode_utf8(b) =~= encode_utf8(b));
    } else {
        lemma_encode_concat(a.drop_first(), b);
        assert((a + b).drop_first() =~= a.drop_first() + b);
        assert((a + b)[0] == a[0]);
        assert(encode_utf8(a + b) =~= encode_utf8(a) + encode_utf8(b));
    }
}

/// Removing characters, or putting a space in place of a blank, never makes
/// the UTF-8 encoding longer.
pub proof fn lemma_embeds_encoded_len(a: Seq<char>, b: Seq<char>)
    requires
        embeds(a, b),
    ensures
        encode_utf8(a).len() <= encode_utf8(b).len(),
    decreases b.len(),
{
    if a.len() > 0 && b.len() > 0 {
        let b1 = b.drop_last();
        assert(b1 + seq![b.last()] =~= b);
        lemma_encode_concat(b1, seq![b.last()]);
        if stands_for(a.last(), b.last()) {
            let a1 = a.drop_last();
            assert(a1 + seq![a.last()] =~= a);
            lemma_encode_concat(a1, seq![a.last()]);
            lemma_embeds_encoded_len(a1, b1);
            assert(seq![a.last()].drop_first() =~= Seq::<char>::empty());
            assert(seq![b.last()].drop_first() =~= Seq::<char>::empty());
        } else {
            lemma_embeds_encoded_len(a, b1);
        }
    }
}

proof fn lemma_replace_encoded_len(hay: Seq<char>, from: Seq<char>, to: Seq<char>, i: int)
    requires
        0 <= i <= hay.len(),
        to.len() <= from.len(),
        to == from.take(to.len() as int),
    ensures
        encode_utf8(replace_from(hay, from, to, i)).len() <= encode_utf8(
            hay.subrange(i, hay.len() as int),
        ).len(),
    decreases hay.len() - i,
{
    if i == hay.len() {
        assert(hay.subrange(i, hay.len() as int) =~= Seq::<char>::empty());
    } else if from.len() > 0 && occurs_at(hay, from, i) {
        let rest = hay.subrange(i + from.len(), hay.len() as int);
        lemma_replace_encoded_len(hay, from, to, i + from.len());
        assert(hay.subrange(i, hay.len() as int) =~= from + rest);
        assert(from =~= to + from.skip(to.len() as int));
        lemma_encode_concat(from, rest);
        lemma_encode_concat(to, from.skip(to.len() as int));
        lemma_encode_concat(to, replace_from(hay, from, to, i + from.len()));
    } else {
        let rest = hay.subrange(i + 1, hay.len() as int);
        lemma_replace_encoded_len(hay, from, to, i + 1);
        assert(hay.subrange(i, hay.len() as int) =~= seq![hay[i]] + rest);
        lemma_encode_concat(seq![hay[i]], rest);
        lemma_encode_concat(seq![hay[i]], replace_from(hay, from, to, i + 1));
    }
}

proof fn lemma_replace_all_encoded_len(hay: Seq<char>, from: Seq<char>, to: Seq<char>)
    requires
        to.len() <= from.len(),
        to == from.take(to.len() as int),
    ensures
        encode_utf8(replace_all(hay, from, to)).len() <= encode_utf8(hay).len(),
{
    lemma_replace_encoded_len(hay, from, to, 0);
    assert(hay.subrange(0, hay.len() as int) =~= hay);
}

/// Safe JavaScript minification never makes the UTF-8 text longer.
pub proof fn lemma_js_safe_bytes_never_longer(s: Seq<char>)
    ensures
        encode_utf8(js_safe_text(s)).len() <= encode_utf8(s).len(),
{
    lemma_js_safe_only_removes(s);
    lemma_embeds_encoded_len(js_safe_text(s), s);
}

/// Aggressive JavaScript minification never gives more bytes than safe
/// minification: each global name is replaced by its first letter.
pub proof fn lemma_js_aggressive_bytes_never_longer_than_safe(s: Seq<char>)
    ensures
        encode_utf8(js_aggressive_text(s)).len() <= encode_utf8(js_safe_text(s)).len(),
{
    reveal_strlit("console");
    reveal_strlit("c");
    reveal_strlit("document");
    reveal_strlit("d");
    reveal_strlit("window");
    reveal_strlit("w");
    assert("c"@ =~= "console"@.take(1));
    assert("d"@ =~= "document"@.take(1));
    assert("w"@ =~= "window"@.take(1));
    let t = js_safe_text(s);
    let a = replace_all(t, "console"@, "c"@);
    let b = replace_all(a, "document"@, "d"@);
    lemma_replace_all_encoded_len(t, "console"@, "c"@);
    lemma_replace_all_encoded_len(a, "document"@, "d"@);
    lemma_replace_all_encoded_len(b, "window"@, "w"@);
}

/// Safe JavaScript minification never makes the text longer: comment
/// removal drops characters and whitespace removal writes at most one
/// character for each one it reads.
pub proof fn lemma_js_safe_never_longer(s: Seq<char>)
    ensures
        js_safe_text(s).len() <= s.len(),
{
    lemma_strip_comments_from_len(s, 0, comment_scan_start(), Seq::empty());
    let stripped = strip_comments(s);
    lemma_squeeze_from_len(stripped, 0, space_scan_start(), Seq::empty());
    lemma_trim_shrinks(squeeze_from(stripped, 0, space_scan_start(), Seq::empty()));
}

/// Aggressive JavaScript minification is never longer than safe
/// minification: it only shortens the global names of the safe output.
pub proof fn lemma_js_aggressive_never_longer_than_safe(s: Seq<char>)
    ensures
        js_aggressive_text(s).len() <= js_safe_text(s).len(),
{
    let t = js_safe_text(s);
    let a = replace_all(t, "console"@, "c"@);
    let b = replace_all(a, "document"@, "d"@);
    assert("console"@.len() == 7 && "c"@.len() == 1 && "document"@.len() == 8 && "d"@.len() == 1
        && "window"@.len() == 6 && "w"@.len() == 1) by {
        reveal_strlit("console");
        reveal_strlit("c");
        reveal_strlit("document");
        reveal_strlit("d");
        reveal_strlit("window");
        reveal_strlit("w");
    }
    lemma_replace_from_shrinks(t, "console"@, "c"@, 0);
    lemma_replace_from_shrinks(a, "document"@, "d"@, 0);
    lemma_replace_from_shrinks(b, "window"@, "w"@, 0);
}

pub open spec fn js_stats(
    st: MinifyStats,
    before: nat,
    after: nat,
    lines_before: nat,
    lines_after: nat,
    renamed: usize,
    extra: Seq<char>,
) -> bool {
    &&& st.before_bytes == before
    &&& st.after_bytes == after
    &&& st.lines == Some((lines_before as usize, lines_after as usize))
    &&& st.format_metrics == Some(
        FormatMetrics::JavaScript { identifiers_renamed: renamed, functions_inlined: 0, dead_code_removed: 0 },
    )
    &&& st.extra matches Some(e) && e@ == extra
}

/// Input that the JavaScript plugin takes for JavaScript or TypeScript.
pub open spec fn js_detects(c: Seq<char>) -> bool {
    let excluded = contains(c, "body {"@) || contains(c, "html>"@) || contains(c, "<!DOCTYPE"@);
    let has_js_keywords = contains(c, "function"@) || contains(c, "const"@) || contains(c, "let"@)
        || contains(c, "var"@) || contains(c, "=>"@) || contains(c, "import"@) || contains(
        c,
        "export"@,
    ) || contains(c, "require("@);
    let has_js_syntax = contains(c, "{"@) && contains(c, "}"@) && (contains(c, ";"@) || contains(
        c,
        "=>"@,
    ) || contains(c, "return"@));
    let has_ts_syntax = contains(c, ":"@) && (contains(c, "interface"@) || contains(c, "type"@)
        || contains(c, "enum"@) || contains(c, "class"@));
    let is_typescript = contains(c, "interface"@) || contains(c, "type"@) || (contains(c, "enum"@)
        && contains(c, "{"@));
    !excluded && (has_js_keywords || has_js_syntax || has_ts_syntax || is_typescript)
}

pub struct JavaScriptPlugin {
    last_stats: Option<MinifyStats>,
}

impl JavaScriptPlugin {
    pub fn new() -> (r: Self)
        ensures
            r.spec_stats() is None,
    {
        JavaScriptPlugin { last_stats: None }
    }

    /// Checks that braces, parentheses and square brackets outside string
    /// and template literals balance.
    pub fn parse_javascript(&self, input: &str) -> (r: Result<(), MinifyError>)
        ensures
            r is Ok <==> balance_error(input@, true) is None,
            r matches Err(e) ==> e matches MinifyError::ParseError(m) && Some(m@) == balance_error(
                input@,
                true,
            ),
    {
        let chars = chars_of(input);
        check_balance(chars.as_slice(), true)
    }

    /// The number of comments that comment removal took out, estimated from
    /// the markers `//` and `/*` before and after.
    pub fn count_comments_removed(original: &[char], after_removal: &[char]) -> (r: usize)
        ensures
            r == comments_removed_count(original@, after_removal@),
    {
        proof {
            reveal_strlit("//");
            reveal_strlit("/*");
        }
        let original_single_line = count_str(original, "//");
        let original_multi_line = count_str(original, "/*");
        let after_single_line = count_str(after_removal, "//");
        let after_multi_line = count_str(after_removal, "/*");
        original_single_line.wrapping_sub(after_single_line).wrapping_add(
            original_multi_line.wrapping_sub(after_multi_line),
        )
    }

    /// Replaces `console`, `document` and `window` by `c`, `d` and `w`.
    pub fn apply_aggressive_optimizations(input: &[char]) -> (r: Vec<char>)
        ensures
            r@ == shorten_globals(input@),
    {
        proof {
            reveal_strlit("console");
            reveal_strlit("document");
            reveal_strlit("window");
        }
        let result = replace_str(input, "console", "c");
        let result = replace_str(result.as_slice(), "document", "d");
        replace_str(result.as_slice(), "window", "w")
    }

    /// The number of replaced identifiers, estimated from the occurrences of
    /// the three names before and after.
    pub fn count_identifier_changes(before: &[char], after: &[char]) -> (r: usize)
        ensures
            r == identifier_changes(before@, after@),
    {
        proof {
            reveal_strlit("console");
            reveal_strlit("document");
            reveal_strlit("window");
        }
        let console_changes = count_str(before, "console").wrapping_sub(count_str(after, "console"));
        let document_changes = count_str(before, "document").wrapping_sub(
            count_str(after, "document"),
        );
        let window_changes = count_str(before, "window").wrapping_sub(count_str(after, "window"));
        console_changes.wrapping_add(document_changes).wrapping_add(window_changes)
    }

    /// Safe mode: the input must balance; then comments and whitespace are
    /// removed.
    pub fn safe_minify(&mut self, input_bytes: &[u8]) -> (r: Result<Vec<u8>, MinifyError>)
        ensures
            ({
                let text = utf8_lossy(input_bytes@);
                match js_minify_error(text) {
                    Some(m) => r matches Err(e) && e matches MinifyError::ParseError(em) && em@ == m,
                    None => r matches Ok(out) && out@ == encode_utf8(js_safe_text(text)),
                }
            }),
            r is Err ==> final(self).spec_stats() == old(self).spec_stats(),
            r matches Ok(out) ==> final(self).spec_stats() matches Some(st) && ({
                let text = utf8_lossy(input_bytes@);
                js_stats(
                    st,
                    input_bytes@.len(),
                    out@.len(),
                    line_count(text),
                    line_count(js_safe_text(text)),
                    0,
                    "comments removed: "@ + decimal(
                        comments_removed_count(text, strip_comments(text)) as nat,
                    ),
                )
            }),
    {
        let original_size = input_bytes.len();
        let input = decode_lossy(input_bytes);
        check_balance(input.as_slice(), true)?;
        let without_comments = Self::remove_comments_preserving_strings(input.as_slice());
        check_balance(without_comments.as_slice(), true)?;
        let original_lines = lines_in(input.as_slice());
        let comments_removed = Self::count_comments_removed(
            input.as_slice(),
            without_comments.as_slice(),
        );
        let minified = Self::remove_whitespace_preserving_strings(without_comments.as_slice());
        let final_lines = lines_in(minified.as_slice());
        let output_bytes = encode(minified.as_slice());
        let mut extra: Vec<char> = Vec::new();
        append_str(&mut extra, "comments removed: ");
        push_decimal(&mut extra, comments_removed);
        let stats = MinifyStats::new(original_size, output_bytes.len()).with_lines(
            original_lines,
            final_lines,
        ).with_format_metrics(
            FormatMetrics::JavaScript {
                identifiers_renamed: 0,
                functions_inlined: 0,
                dead_code_removed: 0,
            },
        ).with_extra(string_of(extra.as_slice()));
        self.last_stats = Some(stats);
        Ok(output_bytes)
    }

    /// Aggressive mode: safe mode's steps, then shorter names for `console`,
    /// `document` and `window`.
    pub fn aggressive_minify(&mut self, input_bytes: &[u8]) -> (r: Result<Vec<u8>, MinifyError>)
        ensures
            ({
                let text = utf8_lossy(input_bytes@);
                match js_minify_error(text) {
                    Some(m) => r matches Err(e) && e matches MinifyError::ParseError(em) && em@ == m,
                    None => r matches Ok(out) && out@ == encode_utf8(js_aggressive_text(text)),
                }
            }),
            r is Err ==> final(self).spec_stats() == old(self).spec_stats(),
            r matches Ok(out) ==> final(self).spec_stats() matches Some(st) && ({
                let text = utf8_lossy(input_bytes@);
                let renamed = identifier_changes(js_safe_text(text), js_aggressive_text(text));
                js_stats(
                    st,
                    input_bytes@.len(),
                    out@.len(),
                    line_count(text),
                    line_count(js_aggressive_text(text)),
                    renamed,
                    "comments removed: "@ + decimal(
                        comments_removed_count(text, strip_comments(text)) as nat,
                    ) + ", identifiers renamed: "@ + decimal(renamed as nat),
                )
            }),
    {
        let original_size = input_bytes.len();
        let input = decode_lossy(input_bytes);
        check_balance(input.as_slice(), true)?;
        let without_comments = Self::remove_comments_preserving_strings(input.as_slice());
        check_balance(without_comments.as_slice(), true)?;
        let original_lines = lines_in(input.as_slice());
        let comments_removed = Self::count_comments_removed(
            input.as_slice(),
            without_comments.as_slice(),
        );
        let minified = Self::remove_whitespace_preserving_strings(without_comments.as_slice());
        let aggressive_result = Self::apply_aggressive_optimizations(minified.as_slice());
        let identifiers_renamed = Self::count_identifier_changes(
            minified.as_slice(),
            aggressive_result.as_slice(),
        );
        let final_lines = lines_in(aggressive_result.as_slice());
        let output_bytes = encode(aggressive_result.as_slice());
        let mut extra: Vec<char> = Vec::new();
        append_str(&mut extra, "comments removed: ");
        push_decimal(&mut extra, comments_removed);
        append_str(&mut extra, ", identifiers renamed: ");
        push_decimal(&mut extra, identifiers_renamed);
        let stats = MinifyStats::new(original_size, output_bytes.len()).with_lines(
            original_lines,
            final_lines,
        ).with_format_metrics(
            FormatMetrics::JavaScript {
                identifiers_renamed,
                functions_inlined: 0,
                dead_code_removed: 0,
            },
        ).with_extra(string_of(extra.as_slice()));
        self.last_stats = Some(stats);
        Ok(output_bytes)
    }
}

impl Minifier for JavaScriptPlugin {
    open spec fn spec_name(&self) -> Seq<char> {
        "javascript"@
    }

    open spec fn spec_detect(&self, input: Seq<u8>) -> bool {
        js_detects(utf8_lossy(input))
    }

    closed spec fn spec_stats(&self) -> Option<MinifyStats> {
        self.last_stats
    }

    open spec fn spec_error(&self, input: Seq<u8>, level: MinifyLevel, e: MinifyError) -> bool {
        if input.len() == 0 {
            e matches MinifyError::ParseError(m) && m@ == "Empty input"@
        } else {
            match js_minify_error(utf8_lossy(input)) {
                Some(msg) => e matches MinifyError::ParseError(m) && m@ == msg,
                None => false,
            }
        }
    }

    open spec fn spec_output(&self, input: Seq<u8>, level: MinifyLevel) -> Option<Seq<u8>> {
        let text = utf8_lossy(input);
        if input.len() == 0 || js_minify_error(text) is Some {
            None
        } else if level == MinifyLevel::Safe {
            Some(encode_utf8(js_safe_text(text)))
        } else {
            Some(encode_utf8(js_aggressive_text(text)))
        }
    }

    fn name(&self) -> (r: &str) {
        "javascript"
    }

    fn detect(&self, input_bytes: &[u8]) -> (r: bool) {
        let content = decode_lossy(input_bytes);
        let c = content.as_slice();
        if contains_str(c, "body {") || contains_str(c, "html>") || contains_str(c, "<!DOCTYPE") {
            return false;
        }
        let has_js_keywords = contains_str(c, "function") || contains_str(c, "const")
            || contains_str(c, "let") || contains_str(c, "var") || contains_str(c, "=>")
            || contains_str(c, "import") || contains_str(c, "export") || contains_str(c, "require(");
        let has_js_syntax = contains_str(c, "{") && contains_str(c, "}") && (contains_str(c, ";")
            || contains_str(c, "=>") || contains_str(c, "return"));
        let has_ts_syntax = contains_str(c, ":") && (contains_str(c, "interface") || contains_str(
            c,
            "type",
        ) || contains_str(c, "enum") || contains_str(c, "class"));
        let is_typescript = contains_str(c, "interface") || contains_str(c, "type") || (
        contains_str(c, "enum") && contains_str(c, "{"));
        has_js_keywords || (has_js_syntax || has_ts_syntax || is_typescript)
    }

    fn minify(&mut self, input_bytes: &[u8], level: MinifyLevel) -> (r: Result<Vec<u8>, MinifyError>)
        ensures
            input_bytes@.len() == 0 ==> (r matches Err(e) && e matches MinifyError::ParseError(m)
                && m@ == "Empty input"@),
            input_bytes@.len() > 0 ==> (r is Ok <==> js_minify_error(utf8_lossy(input_bytes@))
                is None),
            input_bytes@.len() > 0 ==> (js_minify_error(utf8_lossy(input_bytes@)) matches Some(
                m,
            ) ==> r matches Err(e) && e matches MinifyError::ParseError(em) && em@ == m),
            input_bytes@.len() > 0 && level == MinifyLevel::Safe ==> (r matches Ok(out) ==> out@
                == encode_utf8(js_safe_text(utf8_lossy(input_bytes@)))),
            input_bytes@.len() > 0 && level == MinifyLevel::Aggressive ==> (r matches Ok(out)
                ==> out@ == encode_utf8(js_aggressive_text(utf8_lossy(input_bytes@)))),
    {
        if input_bytes.len() == 0 {
            return Err(MinifyError::ParseError(string_from_str("Empty input")));
        }
        match level {
            MinifyLevel::Safe => self.safe_minify(input_bytes),
            MinifyLevel::Aggressive => self.aggressive_minify(input_bytes),
        }
    }

    fn stats(&self) -> (r: Option<MinifyStats>) {
        self.last_stats.clone()
    }
}

} // verus!
