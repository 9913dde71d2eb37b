//! The HTML plugin: comment removal and removal of the whitespace that
//! directly precedes a tag; aggressive mode also drops line breaks, empty
//! attribute values, optional closing tags and the doctype.

use vstd::prelude::*;
use vstd::utf8::{decode_utf8, encode_utf8, encode_utf8_decode_utf8, encode_utf8_valid_utf8};
use crate::css::{compile_pattern, plain_stats, regex_failure};
use crate::js::{
    embeds, extends, lemma_embeds_push_both, lemma_embeds_push_input, lemma_embeds_refl,
    lemma_embeds_trans,
};
use crate::minifier::{Minifier, MinifyError, MinifyLevel};
use crate::pattern::{regex_compiles, regex_replace_all, replace_all, Pattern};
use crate::stats::MinifyStats;
use crate::strings::{chars_of, decode_lossy, encode, utf8_lossy};
use crate::text::{
    contains, contains_str, count_matches, count_str, occurs_at, string_from_str, trim, trimmed,
};

verus! {

/// HTML comments, across lines.
pub const HTML_COMMENT: &'static str = r"(?s)<!--.*?-->";

/// HTML comments, across lines and in any case.
pub const HTML_SCRIPT_COMMENT: &'static str = r"(?si)<!--.*?-->";

/// Whitespace at the start or at the end of the text.
pub const HTML_LEADING_TRAILING: &'static str = r"^\s+|\s+$";

/// An attribute with an empty quoted value, with the whitespace before it.
pub const HTML_EMPTY_ATTRIBUTE: &'static str = r#"(\s)([a-zA-Z-]+)="""#;

/// Runs of line feeds.
pub const HTML_NEWLINE: &'static str = r"\n+";

/// Whitespace between the end of one tag and the start of the next.
pub const HTML_SPACE_AROUND_TAGS: &'static str = r">\s+<";

/// Closing tags that HTML lets a document leave out.
pub const HTML_OPTIONAL_CLOSING: &'static str = r"(?i)</(p|li|tr|td|th)>";

/// A doctype at the start of the text.
pub const HTML_DOCTYPE: &'static str = r"(?i)^<!DOCTYPE[^>]*>";

pub open spec fn is_blank(c: char) -> bool {
    c == ' ' || c == '\t' || c == '\n' || c == '\r'
}

/// The text without its trailing spaces, tabs and line breaks.
pub open spec fn trim_trailing_blanks(s: Seq<char>) -> Seq<char>
    decreases s.len(),
{
    if s.len() > 0 && is_blank(s.last()) {
        trim_trailing_blanks(s.drop_last())
    } else {
        s
    }
}

/// Where the whitespace pass stands: inside a tag or not, and inside a
/// quoted attribute value (with its quote character) or not.
pub struct TagScan {
    pub in_tag: bool,
    pub in_quote: bool,
    pub quote: char,
}

pub open spec fn tag_scan_start() -> TagScan {
    TagScan { in_tag: false, in_quote: false, quote: '\0' }
}

/// A `<` outside quotes starts a tag and a `>` outside quotes ends one;
/// inside a tag a quote opens a value that the same quote closes.
pub open spec fn tag_scan_state(st: TagScan, c: char) -> TagScan {
    if c == '<' && !st.in_quote {
        TagScan { in_tag: true, ..st }
    } else if c == '>' && !st.in_quote {
        TagScan { in_tag: false, in_quote: false, quote: '\0' }
    } else if st.in_tag && !st.in_quote && (c == '"' || c == '\'') {
        TagScan { in_quote: true, quote: c, ..st }
    } else if st.in_tag && st.in_quote && c == st.quote {
        TagScan { in_quote: false, quote: '\0', ..st }
    } else {
        st
    }
}

/// A `<` that starts a tag drops the spaces, tabs and line breaks written
/// just before it; every other character is copied.
pub open spec fn tag_space_output(st: TagScan, out: Seq<char>, c: char) -> Seq<char> {
    if c == '<' && !st.in_quote {
        trim_trailing_blanks(out).push('<')
    } else {
        out.push(c)
    }
}

pub open spec fn tag_space_from(s: Seq<char>, i: int, st: TagScan, out: Seq<char>) -> Seq<char>
    decreases s.len() - i,
{
    if i < 0 || i >= s.len() {
        out
    } else {
        tag_space_from(s, i + 1, tag_scan_state(st, s[i]), tag_space_output(st, out, s[i]))
    }
}

/// The text with the spaces, tabs and line breaks that directly precede a
/// tag removed; quoted attribute values and everything else, text content
/// included, are kept.
pub open spec fn remove_space_before_tags(s: Seq<char>) -> Seq<char> {
    tag_space_from(s, 0, tag_scan_start(), Seq::empty())
}

proof fn lemma_trim_trailing_blanks_embeds(s: Seq<char>)
    ensures
        embeds(trim_trailing_blanks(s), s),
    decreases s.len(),
{
    if s.len() > 0 && is_blank(s.last()) {
        lemma_trim_trailing_blanks_embeds(s.drop_last());
        assert(s.drop_last().push(s.last()) =~= s);
        lemma_embeds_push_input(trim_trailing_blanks(s.drop_last()), s.drop_last(), s.last());
    } else {
        lemma_embeds_refl(s);
    }
}

proof fn lemma_tag_space_from_embeds(s: Seq<char>, i: int, st: TagScan, out: Seq<char>)
    requires
        0 <= i <= s.len(),
        embeds(out, s.take(i)),
    ensures
        embeds(tag_space_from(s, i, st, out), s),
    decreases s.len() - i,
{
    if i == s.len() {
        assert(s.take(i) =~= s);
    } else {
        let c = s[i];
        assert(s.take(i).push(c) =~= s.take(i + 1));
        if c == '<' && !st.in_quote {
            lemma_trim_trailing_blanks_embeds(out);
            lemma_embeds_trans(trim_trailing_blanks(out), out, s.take(i));
            lemma_embeds_push_both(trim_trailing_blanks(out), s.take(i), c, c);
        } else {
            lemma_embeds_push_both(out, s.take(i), c, c);
        }
        lemma_tag_space_from_embeds(s, i + 1, tag_scan_state(st, c), tag_space_output(st, out, c));
    }
}

/// Removing the whitespace before tags only removes: the output embeds
/// into the input, every character of it being one of the input's, in the
/// same order.
pub proof fn lemma_space_before_tags_only_removes(s: Seq<char>)
    ensures
        embeds(remove_space_before_tags(s), s),
{
    assert(s.take(0) =~= Seq::<char>::empty());
    lemma_tag_space_from_embeds(s, 0, tag_scan_start(), Seq::empty());
}

/// The scan's state after the characters of `s` from index `i` on.
pub open spec fn tag_state_from(s: Seq<char>, i: int, st: TagScan) -> TagScan
    decreases s.len() - i,
{
    if i < 0 || i >= s.len() {
        st
    } else {
        tag_state_from(s, i + 1, tag_scan_state(st, s[i]))
    }
}

proof fn lemma_tag_space_from_shift(a: Seq<char>, b: Seq<char>, k: int, st: TagScan, out: Seq<char>)
    requires
        0 <= k <= b.len(),
    ensures
        tag_space_from(a + b, a.len() + k, st, out) == tag_space_from(b, k, st, out),
    decreases b.len() - k,
{
    if k < b.len() {
        assert((a + b)[a.len() + k] == b[k]);
        let c = b[k];
        lemma_tag_space_from_shift(a, b, k + 1, tag_scan_state(st, c), tag_space_output(st, out, c));
    }
}

proof fn lemma_tag_space_from_concat(a: Seq<char>, b: Seq<char>, i: int, st: TagScan, out: Seq<char>)
    requires
        0 <= i <= a.len(),
    ensures
        tag_space_from(a + b, i, st, out) == tag_space_from(
            b,
            0,
            tag_state_from(a, i, st),
            tag_space_from(a, i, st, out),
        ),
    decreases a.len() - i,
{
    if i == a.len() {
        lemma_tag_space_from_shift(a, b, 0, st, out);
    } else {
        assert((a + b)[i] == a[i]);
        let c = a[i];
        lemma_tag_space_from_concat(a, b, i + 1, tag_scan_state(st, c), tag_space_output(st, out, c));
    }
}

/// Without quote characters the scan never enters a quoted value, and after
/// a closing `>` it stands outside any tag.
proof fn lemma_tag_state_unquoted(s: Seq<char>, i: int, st: TagScan)
    requires
        0 <= i <= s.len(),
        !st.in_quote,
        st.quote == '\0',
        forall|k: int| 0 <= k < s.len() ==> s[k] != '"' && s[k] != '\'',
        i == s.len() ==> !st.in_tag,
        s.len() > 0 && s.last() == '>',
    ensures
        tag_state_from(s, i, st) == tag_scan_start(),
    decreases s.len() - i,
{
    if i < s.len() {
        lemma_tag_state_unquoted(s, i + 1, tag_scan_state(st, s[i]));
    }
}

/// Outside tags, text with no `<` or `>` (quote characters included) is
/// copied and leaves the scan where it was.
proof fn lemma_tag_space_text(s: Seq<char>, i: int, j: int, out: Seq<char>)
    requires
        0 <= i <= j <= s.len(),
        forall|k: int| i <= k < j ==> s[k] != '<' && s[k] != '>',
    ensures
        tag_space_from(s, i, tag_scan_start(), out) == tag_space_from(
            s,
            j,
            tag_scan_start(),
            out + s.subrange(i, j),
        ),
    decreases j - i,
{
    if i == j {
        assert(out + s.subrange(i, j) =~= out);
    } else {
        assert(tag_scan_state(tag_scan_start(), s[i]) == tag_scan_start());
        lemma_tag_space_text(s, i + 1, j, out.push(s[i]));
        assert(out.push(s[i]) + s.subrange(i + 1, j) =~= out + s.subrange(i, j));
    }
}

proof fn lemma_trim_trailing_blanks_append(x: Seq<char>, b: Seq<char>)
    requires
        forall|k: int| 0 <= k < b.len() ==> is_blank(b[k]),
    ensures
        trim_trailing_blanks(x + b) == trim_trailing_blanks(x),
    decreases b.len(),
{
    if b.len() == 0 {
        assert(x + b =~= x);
    } else {
        assert((x + b).drop_last() =~= x + b.drop_last());
        assert((x + b).last() == b.last());
        lemma_trim_trailing_blanks_append(x, b.drop_last());
    }
}

proof fn lemma_tag_state_concat(a: Seq<char>, b: Seq<char>, i: int, st: TagScan)
    requires
        0 <= i <= a.len(),
    ensures
        tag_state_from(a + b, i, st) == tag_state_from(b, 0, tag_state_from(a, i, st)),
    decreases (a + b).len() - i,
{
    if i == a.len() {
        lemma_tag_state_shift(a, b, 0, st);
    } else {
        assert((a + b)[i] == a[i]);
        lemma_tag_state_concat(a, b, i + 1, tag_scan_state(st, a[i]));
    }
}

proof fn lemma_tag_state_shift(a: Seq<char>, b: Seq<char>, k: int, st: TagScan)
    requires
        0 <= k <= b.len(),
    ensures
        tag_state_from(a + b, a.len() + k, st) == tag_state_from(b, k, st),
    decreases b.len() - k,
{
    if k < b.len() {
        assert((a + b)[a.len() + k] == b[k]);
        lemma_tag_state_shift(a, b, k + 1, tag_scan_state(st, b[k]));
    }
}

proof fn lemma_tag_state_text(s: Seq<char>, i: int)
    requires
        0 <= i <= s.len(),
        forall|k: int| 0 <= k < s.len() ==> s[k] != '<' && s[k] != '>',
    ensures
        tag_state_from(s, i, tag_scan_start()) == tag_scan_start(),
    decreases s.len() - i,
{
    if i < s.len() {
        lemma_tag_state_text(s, i + 1);
    }
}

proof fn lemma_tag_space_no_tag(s: Seq<char>, i: int, st: TagScan, out: Seq<char>)
    requires
        0 <= i <= s.len(),
        forall|k: int| i <= k < s.len() ==> s[k] != '<',
    ensures
        tag_space_from(s, i, st, out) == out + s.subrange(i, s.len() as int),
    decreases s.len() - i,
{
    if i == s.len() {
        assert(out + s.subrange(i, s.len() as int) =~= out);
    } else {
        lemma_tag_space_no_tag(s, i + 1, tag_scan_state(st, s[i]), out.push(s[i]));
        assert(out.push(s[i]) + s.subrange(i + 1, s.len() as int) =~= out + s.subrange(
            i,
            s.len() as int,
        ));
    }
}

/// Only the blanks before a tag go: a text with no `<` comes out unchanged,
/// its whitespace, quotes and `>` included.
pub proof fn lemma_text_without_tags_unchanged(s: Seq<char>)
    requires
        forall|k: int| 0 <= k < s.len() ==> s[k] != '<',
    ensures
        remove_space_before_tags(s) == s,
{
    lemma_tag_space_no_tag(s, 0, tag_scan_start(), Seq::empty());
    assert(Seq::<char>::empty() + s.subrange(0, s.len() as int) =~= s);
}

/// Spaces, tabs and line breaks right before a tag are removed whatever the
/// text content before them holds. After a quote-free text `p` that ends a
/// tag come text content `t` (apostrophes and quotation marks included, but
/// no `<` or `>`), then `u`, nothing or a quote-free text that ends a tag,
/// then blanks `b` and a tag: the output is the one without the blanks.
pub proof fn lemma_space_before_tag_after_text(
    p: Seq<char>,
    t: Seq<char>,
    u: Seq<char>,
    b: Seq<char>,
    r: Seq<char>,
)
    requires
        p.len() > 0,
        p.last() == '>',
        forall|k: int| 0 <= k < p.len() ==> p[k] != '"' && p[k] != '\'',
        forall|k: int| 0 <= k < t.len() ==> t[k] != '<' && t[k] != '>',
        u.len() > 0 ==> u.last() == '>',
        forall|k: int| 0 <= k < u.len() ==> u[k] != '"' && u[k] != '\'',
        forall|k: int| 0 <= k < b.len() ==> is_blank(b[k]),
    ensures
        remove_space_before_tags(p + t + u + b + seq!['<'] + r) == remove_space_before_tags(
            p + t + u + seq!['<'] + r,
        ),
{
    let start = tag_scan_start();
    let e = Seq::<char>::empty();
    let lt = seq!['<'];
    let a = p + t + u;
    let rest1 = b + lt + r;
    let rest2 = lt + r;
    assert(p + t + u + b + lt + r =~= a + rest1);
    assert(p + t + u + lt + r =~= a + rest2);
    lemma_tag_space_from_concat(a, rest1, 0, start, e);
    lemma_tag_space_from_concat(a, rest2, 0, start, e);
    // The scan stands outside tags and quotes after `a`.
    lemma_tag_state_concat(p + t, u, 0, start);
    lemma_tag_state_concat(p, t, 0, start);
    lemma_tag_state_unquoted(p, 0, start);
    lemma_tag_state_text(t, 0);
    if u.len() > 0 {
        lemma_tag_state_unquoted(u, 0, start);
    }
    assert(tag_state_from(a, 0, start) == start);
    let o = tag_space_from(a, 0, start, e);
    let m = b.len() as int;
    assert forall|k: int| 0 <= k < m implies rest1[k] != '<' && rest1[k] != '>' by {
        assert(rest1[k] == b[k]);
    }
    lemma_tag_space_text(rest1, 0, m, o);
    assert(rest1.subrange(0, m) =~= b);
    assert(rest1[m] == '<');
    assert(rest2[0] == '<');
    lemma_trim_trailing_blanks_append(o, b);
    let st1 = tag_scan_state(start, '<');
    let out1 = trim_trailing_blanks(o).push('<');
    assert(tag_space_from(rest1, 0, start, o) == tag_space_from(rest1, m + 1, st1, out1));
    assert(tag_space_from(rest2, 0, start, o) == tag_space_from(rest2, 1, st1, out1));
    assert(rest1 =~= (b + lt) + r);
    lemma_tag_space_from_shift(b + lt, r, 0, st1, out1);
    lemma_tag_space_from_shift(lt, r, 0, st1, out1);
}

/// A stretch of characters that leaves the scan where it is and writes each
/// of them out.
proof fn lemma_tag_space_steady(s: Seq<char>, i: int, j: int, st: TagScan, out: Seq<char>)
    requires
        0 <= i <= j <= s.len(),
        forall|k: int| i <= k < j ==> tag_scan_state(st, s[k]) == st,
        forall|k: int| i <= k < j ==> s[k] != '<' || st.in_quote,
    ensures
        tag_space_from(s, i, st, out) == tag_space_from(s, j, st, out + s.subrange(i, j)),
    decreases j - i,
{
    if i == j {
        assert(out + s.subrange(i, j) =~= out);
    } else {
        lemma_tag_space_steady(s, i + 1, j, st, out.push(s[i]));
        assert(out.push(s[i]) + s.subrange(i + 1, j) =~= out + s.subrange(i, j));
    }
}

proof fn lemma_trim_trailing_blanks_extends(out: Seq<char>, base: Seq<char>)
    requires
        extends(out, base),
        base.len() > 0,
        !is_blank(base.last()),
    ensures
        extends(trim_trailing_blanks(out), base),
    decreases out.len(),
{
    if out.len() > 0 && is_blank(out.last()) {
        assert(out.len() > base.len()) by {
            if out.len() == base.len() {
                assert(out =~= out.subrange(0, base.len() as int));
            }
        }
        assert(out.drop_last().subrange(0, base.len() as int) =~= out.subrange(
            0,
            base.len() as int,
        ));
        lemma_trim_trailing_blanks_extends(out.drop_last(), base);
    }
}

/// What has been written up to a character other than a blank stays.
proof fn lemma_tag_space_keeps(s: Seq<char>, i: int, st: TagScan, out: Seq<char>, base: Seq<char>)
    requires
        extends(out, base),
        base.len() > 0,
        !is_blank(base.last()),
    ensures
        extends(tag_space_from(s, i, st, out), base),
    decreases s.len() - i,
{
    if 0 <= i < s.len() {
        let c = s[i];
        let o1 = tag_space_output(st, out, c);
        if c == '<' && !st.in_quote {
            lemma_trim_trailing_blanks_extends(out, base);
            let t = trim_trailing_blanks(out);
            assert(t.push('<').subrange(0, base.len() as int) =~= t.subrange(0, base.len() as int));
        } else {
            assert(out.push(c).subrange(0, base.len() as int) =~= out.subrange(0, base.len() as int));
        }
        lemma_tag_space_keeps(s, i + 1, tag_scan_state(st, c), o1, base);
    }
}

/// Inside a quoted attribute value nothing is removed, not even blanks
/// before a `<`: after a quote-free text `p` that is empty or ends a tag,
/// a tag opened by `<` with attribute text `n` (no quotes, `<` or `>`) and
/// a quote `q`, the value `v` (without `q`), blanks `b` and a `<` reach the
/// output unchanged, whatever follows.
pub proof fn lemma_quoted_value_kept(
    p: Seq<char>,
    n: Seq<char>,
    q: char,
    v: Seq<char>,
    b: Seq<char>,
    r: Seq<char>,
)
    requires
        p.len() > 0 ==> p.last() == '>',
        forall|k: int| 0 <= k < p.len() ==> p[k] != '"' && p[k] != '\'',
        forall|k: int| 0 <= k < n.len() ==> n[k] != '"' && n[k] != '\'' && n[k] != '<' && n[k] != '>',
        q == '"' || q == '\'',
        forall|k: int| 0 <= k < v.len() ==> v[k] != q,
        forall|k: int| 0 <= k < b.len() ==> is_blank(b[k]),
    ensures
        contains(
            remove_space_before_tags(p + seq!['<'] + n + seq![q] + v + b + seq!['<'] + r),
            seq![q] + v + b + seq!['<'],
        ),
{
    let start = tag_scan_start();
    let e = Seq::<char>::empty();
    let lit = seq![q] + v + b + seq!['<'];
    let rest = seq!['<'] + n + lit + r;
    assert(p + seq!['<'] + n + seq![q] + v + b + seq!['<'] + r =~= p + rest);
    lemma_tag_space_from_concat(p, rest, 0, start, e);
    if p.len() > 0 {
        lemma_tag_state_unquoted(p, 0, start);
    }
    assert(tag_state_from(p, 0, start) == start);
    let o = tag_space_from(p, 0, start, e);
    // The `<` that opens the tag.
    assert(rest[0] == '<');
    let st1 = TagScan { in_tag: true, ..start };
    let o1 = trim_trailing_blanks(o).push('<');
    assert(tag_space_from(rest, 0, start, o) == tag_space_from(rest, 1, st1, o1));
    // The attribute text before the quote.
    let ln = n.len() as int;
    assert forall|k: int| 1 <= k < 1 + ln implies tag_scan_state(st1, rest[k]) == st1 && (rest[k]
        != '<' || st1.in_quote) by {
        assert(rest[k] == n[k - 1]);
    }
    lemma_tag_space_steady(rest, 1, 1 + ln, st1, o1);
    assert(rest.subrange(1, 1 + ln) =~= n);
    let o2 = o1 + n;
    // The quote and the value.
    assert(rest[1 + ln] == q);
    let sq = TagScan { in_quote: true, quote: q, ..st1 };
    assert(tag_space_from(rest, 1 + ln, st1, o2) == tag_space_from(rest, 2 + ln, sq, o2.push(q)));
    let lv = lit.len() as int;
    assert forall|k: int| 2 + ln <= k < 1 + ln + lv implies tag_scan_state(sq, rest[k]) == sq && (
    rest[k] != '<' || sq.in_quote) by {
        assert(rest[k] == lit[k - 1 - ln]);
        if k - 1 - ln < 1 + v.len() {
            assert(lit[k - 1 - ln] == v[k - 2 - ln]);
        } else if k - 1 - ln < 1 + v.len() + b.len() {
            assert(lit[k - 1 - ln] == b[k - 2 - ln - v.len()]);
        }
    }
    lemma_tag_space_steady(rest, 2 + ln, 1 + ln + lv, sq, o2.push(q));
    let o3 = o2.push(q) + rest.subrange(2 + ln, 1 + ln + lv);
    assert(o3 =~= o2 + lit);
    // What follows cannot take back the value, which ends with `<`.
    assert(o3.subrange(0, o3.len() as int) =~= o3);
    lemma_tag_space_keeps(rest, 1 + ln + lv, sq, o3, o3);
    let res = tag_space_from(rest, 1 + ln + lv, sq, o3);
    assert forall|k: int| 0 <= k < lv implies res[o2.len() + k] == #[trigger] lit[k] by {
        assert(res.subrange(0, o3.len() as int)[o2.len() + k] == o3[o2.len() + k]);
    }
    assert(occurs_at(res, lit, o2.len() as int));
}

pub open spec fn html_safe_patterns_compile() -> bool {
    &&& regex_compiles(HTML_COMMENT@)
    &&& regex_compiles(HTML_SCRIPT_COMMENT@)
    &&& regex_compiles(HTML_LEADING_TRAILING@)
}

pub open spec fn html_aggressive_patterns_compile() -> bool {
    &&& html_safe_patterns_compile()
    &&& regex_compiles(HTML_NEWLINE@)
    &&& regex_compiles(HTML_SPACE_AROUND_TAGS@)
    &&& regex_compiles(HTML_EMPTY_ATTRIBUTE@)
    &&& regex_compiles(HTML_OPTIONAL_CLOSING@)
    &&& regex_compiles(HTML_DOCTYPE@)
}

/// Safe mode's text: comments removed, whitespace before tags removed,
/// leading and trailing whitespace removed.
pub open spec fn html_safe_text(s: Seq<char>) -> Seq<char> {
    let without_comments = regex_replace_all(HTML_COMMENT@, s, ""@);
    let without_script_comments = regex_replace_all(HTML_SCRIPT_COMMENT@, without_comments, ""@);
    let result = remove_space_before_tags(without_script_comments);
    regex_replace_all(HTML_LEADING_TRAILING@, result, ""@)
}

/// Aggressive mode's text: safe mode's text without line feeds, whitespace
/// between tags, empty attribute values, optional closing tags and a leading
/// doctype, then trimmed.
pub open spec fn html_aggressive_text(s: Seq<char>) -> Seq<char> {
    let minified = html_safe_text(s);
    let no_newlines = regex_replace_all(HTML_NEWLINE@, minified, ""@);
    let no_space_around_tags = regex_replace_all(HTML_SPACE_AROUND_TAGS@, no_newlines, "><"@);
    let no_empty_quotes = regex_replace_all(HTML_EMPTY_ATTRIBUTE@, no_space_around_tags, "$1$2"@);
    let no_optional_closing = regex_replace_all(HTML_OPTIONAL_CLOSING@, no_empty_quotes, ""@);
    let no_doctype = regex_replace_all(HTML_DOCTYPE@, no_optional_closing, ""@);
    trim(regex_replace_all(HTML_SPACE_AROUND_TAGS@, no_doctype, "><"@))
}

/// The structural check on a text: it holds both `<` and `>`, and no more
/// than twice as many `<` as `>`.
pub open spec fn looks_like_html(s: Seq<char>) -> bool {
    let open_tags = count_matches(s, "<"@);
    let close_tags = count_matches(s, ">"@);
    contains(s, "<"@) && contains(s, ">"@) && open_tags > 0 && close_tags > 0 && open_tags <= 2
        * close_tags
}

/// Input that the HTML plugin takes for HTML.
pub open spec fn html_detects(c: Seq<char>) -> bool {
    let has_doctype = contains(c, "<!DOCTYPE"@);
    let has_html_tag = contains(c, "<html"@) || contains(c, "<HTML"@);
    let has_body_tag = contains(c, "<body"@) || contains(c, "<BODY"@);
    let has_head_tag = contains(c, "<head"@) || contains(c, "<HEAD"@);
    let has_script_tag = contains(c, "<script"@) || contains(c, "<SCRIPT"@);
    let has_style_tag = contains(c, "<style"@) || contains(c, "<STYLE"@);
    let has_common_tags = contains(c, "<div"@) || contains(c, "<span"@) || contains(c, "<p>"@)
        || contains(c, "<p "@) || contains(c, "<a>"@) || contains(c, "<a "@) || contains(
        c,
        "<img"@,
    ) || contains(c, "<h1"@) || contains(c, "<h2"@) || contains(c, "<h3"@) || contains(c, "<ul"@)
        || contains(c, "<ol"@) || contains(c, "<li"@);
    let has_tag_structure = contains(c, "<!"@) || (contains(c, "<"@) && contains(c, ">"@));
    has_doctype || has_html_tag || has_body_tag || has_head_tag || has_script_tag || has_style_tag
        || (has_common_tags && has_tag_structure)
}

fn blank(c: char) -> (r: bool)
    ensures
        r == is_blank(c),
{
    c == ' ' || c == '\t' || c == '\n' || c == '\r'
}

struct HtmlPatterns {
    comment: Pattern,
    script_comment: Pattern,
    leading_trailing: Pattern,
}

struct HtmlAggressivePatterns {
    newline: Pattern,
    space_around_tags: Pattern,
    empty_attribute: Pattern,
    optional_closing: Pattern,
    doctype: Pattern,
}

fn compile_html_patterns() -> (r: Result<HtmlPatterns, MinifyError>)
    ensures
        r is Ok <==> html_safe_patterns_compile(),
        r matches Ok(p) ==> p.comment@ == HTML_COMMENT@ && p.script_comment@
            == HTML_SCRIPT_COMMENT@ && p.leading_trailing@ == HTML_LEADING_TRAILING@,
        r matches Err(e) ==> regex_failure(e),
{
    let comment = compile_pattern(HTML_COMMENT)?;
    let script_comment = compile_pattern(HTML_SCRIPT_COMMENT)?;
    let leading_trailing = compile_pattern(HTML_LEADING_TRAILING)?;
    Ok(HtmlPatterns { comment, script_comment, leading_trailing })
}

fn compile_html_aggressive_patterns() -> (r: Result<HtmlAggressivePatterns, MinifyError>)
    ensures
        r is Ok <==> (regex_compiles(HTML_NEWLINE@) && regex_compiles(HTML_SPACE_AROUND_TAGS@)
            && regex_compiles(HTML_EMPTY_ATTRIBUTE@) && regex_compiles(HTML_OPTIONAL_CLOSING@)
            && regex_compiles(HTML_DOCTYPE@)),
        r matches Ok(p) ==> p.newline@ == HTML_NEWLINE@ && p.space_around_tags@
            == HTML_SPACE_AROUND_TAGS@ && p.empty_attribute@ == HTML_EMPTY_ATTRIBUTE@
            && p.optional_closing@ == HTML_OPTIONAL_CLOSING@ && p.doctype@ == HTML_DOCTYPE@,
        r matches Err(e) ==> regex_failure(e),
{
    let newline = compile_pattern(HTML_NEWLINE)?;
    let space_around_tags = compile_pattern(HTML_SPACE_AROUND_TAGS)?;
    let empty_attribute = compile_pattern(HTML_EMPTY_ATTRIBUTE)?;
    let optional_closing = compile_pattern(HTML_OPTIONAL_CLOSING)?;
    let doctype = compile_pattern(HTML_DOCTYPE)?;
    Ok(HtmlAggressivePatterns { newline, space_around_tags, empty_attribute, optional_closing, doctype })
}

pub struct HTMLPlugin {
    last_stats: Option<MinifyStats>,
}

impl Default for HTMLPlugin {
    fn default() -> (r: Self)
        ensures
            r.spec_stats() is None,
    {
        HTMLPlugin::new()
    }
}

impl HTMLPlugin {
    pub fn new() -> (r: Self)
        ensures
            r.spec_stats() is None,
    {
        HTMLPlugin { last_stats: None }
    }

    /// Whether a text holds `<` and `>`, and no more than twice as many `<`
    /// as `>`.
    pub fn is_valid_html(&self, input: &str) -> (r: bool)
        ensures
            r == looks_like_html(input@),
    {
        let chars = chars_of(input);
        let c = chars.as_slice();
        let has_tag = contains_str(c, "<") && contains_str(c, ">");
        if !has_tag {
            return false;
        }
        proof {
            reveal_strlit("<");
            reveal_strlit(">");
        }
        let open_tags = count_str(c, "<");
        let close_tags = count_str(c, ">");
        open_tags > 0 && close_tags > 0 && (open_tags <= close_tags || open_tags - close_tags
            <= close_tags)
    }

    /// Removes the spaces, tabs and line breaks that directly precede a tag.
    pub fn remove_whitespace_outside_tags(input: &[char]) -> (r: Vec<char>)
        ensures
            r@ == remove_space_before_tags(input@),
    {
        let mut final_result: Vec<char> = Vec::new();
        let mut in_tag = false;
        let mut in_quote = false;
        let mut quote_char: char = '\0';
        let mut i: usize = 0;
        while i < input.len()
            invariant
                i <= input.len(),
                tag_space_from(
                    input@,
                    i as int,
                    TagScan { in_tag, in_quote, quote: quote_char },
                    final_result@,
                ) == remove_space_before_tags(input@),
            decreases input.len() - i,
        {
            let ch = input[i];
            let ghost st0 = TagScan { in_tag, in_quote, quote: quote_char };
            let ghost out0 = final_result@;
            if ch == '<' && !in_quote {
                while final_result.len() > 0 && blank(final_result[final_result.len() - 1])
                    invariant
                        trim_trailing_blanks(final_result@) == trim_trailing_blanks(out0),
                    decreases final_result.len(),
                {
                    final_result.pop();
                }
                in_tag = true;
                final_result.push(ch);
            } else if ch == '>' && !in_quote {
                in_tag = false;
                in_quote = false;
                quote_char = '\0';
                final_result.push(ch);
            } else if in_tag {
                if !in_quote && (ch == '"' || ch == '\'') {
                    in_quote = true;
                    quote_char = ch;
                } else if in_quote && ch == quote_char {
                    in_quote = false;
                    quote_char = '\0';
                }
                final_result.push(ch);
            } else {
                final_result.push(ch);
            }
            assert(final_result@ == tag_space_output(st0, out0, ch));
            assert(TagScan { in_tag, in_quote, quote: quote_char } == tag_scan_state(st0, ch));
            i += 1;
        }
        final_result
    }

    fn safe_steps(p: &HtmlPatterns, input: &[char]) -> (r: Vec<char>)
        requires
            p.comment@ == HTML_COMMENT@,
            p.script_comment@ == HTML_SCRIPT_COMMENT@,
            p.leading_trailing@ == HTML_LEADING_TRAILING@,
        ensures
            r@ == html_safe_text(input@),
    {
        let without_comments = replace_all(&p.comment, input, "");
        let without_script_comments = replace_all(&p.script_comment, without_comments.as_slice(), "");
        let result = Self::remove_whitespace_outside_tags(without_script_comments.as_slice());
        replace_all(&p.leading_trailing, result.as_slice(), "")
    }

    /// Safe mode: comments, whitespace before tags and leading and trailing
    /// whitespace removed.
    pub fn safe_minify(&mut self, input_bytes: &[u8]) -> (r: Result<Vec<u8>, MinifyError>)
        ensures
            r is Ok <==> html_safe_patterns_compile(),
            r matches Ok(out) ==> out@ == encode_utf8(html_safe_text(utf8_lossy(input_bytes@))),
            r matches Err(e) ==> regex_failure(e),
            r is Err ==> final(self).spec_stats() == old(self).spec_stats(),
            r matches Ok(out) ==> final(self).spec_stats() matches Some(st) && plain_stats(
                st,
                input_bytes@.len(),
                out@.len(),
                "comments removed, whitespace collapsed"@,
            ),
    {
        let original_size = input_bytes.len();
        let input = decode_lossy(input_bytes);
        let p = compile_html_patterns()?;
        let output = Self::safe_steps(&p, input.as_slice());
        let output_bytes = encode(output.as_slice());
        self.last_stats = Some(
            MinifyStats::new(original_size, output_bytes.len()).with_extra(
                string_from_str("comments removed, whitespace collapsed"),
            ),
        );
        Ok(output_bytes)
    }

    /// Aggressive mode: safe mode, then line feeds, whitespace between tags,
    /// empty attribute values, optional closing tags and a leading doctype
    /// removed, and the result trimmed.
    pub fn aggressive_minify(&mut self, input_bytes: &[u8]) -> (r: Result<Vec<u8>, MinifyError>)
        ensures
            r is Ok <==> html_aggressive_patterns_compile(),
            r matches Ok(out) ==> out@ == encode_utf8(
                html_aggressive_text(utf8_lossy(input_bytes@)),
            ),
            r matches Err(e) ==> regex_failure(e),
            r is Err ==> final(self).spec_stats() == old(self).spec_stats(),
            r matches Ok(out) ==> final(self).spec_stats() matches Some(st) && plain_stats(
                st,
                input_bytes@.len(),
                out@.len(),
                "aggressive: comments, whitespace, newlines, optional tags removed"@,
            ),
    {
        let original_size = input_bytes.len();
        let p = compile_html_aggressive_patterns()?;
        let result = self.safe_minify(input_bytes)?;
        let minified = decode_lossy(result.as_slice());
        proof {
            encode_utf8_valid_utf8(html_safe_text(utf8_lossy(input_bytes@)));
            encode_utf8_decode_utf8(html_safe_text(utf8_lossy(input_bytes@)));
        }
        let no_newlines = replace_all(&p.newline, minified.as_slice(), "");
        let no_space_around_tags = replace_all(&p.space_around_tags, no_newlines.as_slice(), "><");
        let no_empty_quotes = replace_all(&p.empty_attribute, no_space_around_tags.as_slice(), "$1$2");
        let no_optional_closing = replace_all(&p.optional_closing, no_empty_quotes.as_slice(), "");
        let no_doctype = replace_all(&p.doctype, no_optional_closing.as_slice(), "");
        let cleaned = replace_all(&p.space_around_tags, no_doctype.as_slice(), "><");
        let output = trimmed(cleaned.as_slice());
        let output_bytes = encode(output.as_slice());
        self.last_stats = Some(
            MinifyStats::new(original_size, output_bytes.len()).with_extra(
                string_from_str("aggressive: comments, whitespace, newlines, optional tags removed"),
            ),
        );
        Ok(output_bytes)
    }
}

impl Minifier for HTMLPlugin {
    open spec fn spec_name(&self) -> Seq<char> {
        "html"@
    }

    open spec fn spec_detect(&self, input: Seq<u8>) -> bool {
        input.len() > 0 && html_detects(utf8_lossy(input))
    }

    closed spec fn spec_stats(&self) -> Option<MinifyStats> {
        self.last_stats
    }

    open spec fn spec_error(&self, input: Seq<u8>, level: MinifyLevel, e: MinifyError) -> bool {
        if input.len() == 0 {
            e matches MinifyError::ParseError(m) && m@ == "Empty input"@
        } else {
            regex_failure(e)
        }
    }

    open spec fn spec_output(&self, input: Seq<u8>, level: MinifyLevel) -> Option<Seq<u8>> {
        let text = utf8_lossy(input);
        if input.len() == 0 {
            None
        } else if level == MinifyLevel::Safe {
            if html_safe_patterns_compile() {
                Some(encode_utf8(html_safe_text(text)))
            } else {
                None
            }
        } else if html_aggressive_patterns_compile() {
            Some(encode_utf8(html_aggressive_text(text)))
        } else {
            None
        }
    }

    fn name(&self) -> (r: &str) {
        "html"
    }

    fn detect(&self, input_bytes: &[u8]) -> (r: bool) {
        if input_bytes.len() == 0 {
            return false;
        }
        let content = decode_lossy(input_bytes);
        let c = content.as_slice();
        let has_doctype = contains_str(c, "<!DOCTYPE");
        let has_html_tag = contains_str(c, "<html") || contains_str(c, "<HTML");
        let has_body_tag = contains_str(c, "<body") || contains_str(c, "<BODY");
        let has_head_tag = contains_str(c, "<head") || contains_str(c, "<HEAD");
        let has_script_tag = contains_str(c, "<script") || contains_str(c, "<SCRIPT");
        let has_style_tag = contains_str(c, "<style") || contains_str(c, "<STYLE");
        let has_common_tags = contains_str(c, "<div") || contains_str(c, "<span") || contains_str(
            c,
            "<p>",
        ) || contains_str(c, "<p ") || contains_str(c, "<a>") || contains_str(c, "<a ")
            || contains_str(c, "<img") || contains_str(c, "<h1") || contains_str(c, "<h2")
            || contains_str(c, "<h3") || contains_str(c, "<ul") || contains_str(c, "<ol")
            || contains_str(c, "<li");
        let has_tag_structure = contains_str(c, "<!") || (contains_str(c, "<") && contains_str(
            c,
            ">",
        ));
        has_doctype || has_html_tag || has_body_tag || has_head_tag || has_script_tag
            || has_style_tag || (has_common_tags && has_tag_structure)
    }

    fn minify(&mut self, input_bytes: &[u8], level: MinifyLevel) -> (r: Result<Vec<u8>, MinifyError>)
        ensures
            input_bytes@.len() == 0 ==> (r matches Err(e) && e matches MinifyError::ParseError(m)
                && m@ == "Empty input"@),
            input_bytes@.len() > 0 && level == MinifyLevel::Safe ==> (r is Ok
                <==> html_safe_patterns_compile()) && (r matches Ok(out) ==> out@ == encode_utf8(
                html_safe_text(utf8_lossy(input_bytes@)),
            )),
            input_bytes@.len() > 0 && level == MinifyLevel::Aggressive ==> (r is Ok
                <==> html_aggressive_patterns_compile()) && (r matches Ok(out) ==> out@
                == encode_utf8(html_aggressive_text(utf8_lossy(input_bytes@)))),
    {
        if input_bytes.len() == 0 {
            return Err(MinifyError::ParseError(string_from_str("Empty input")));
        }
        match level {
            MinifyLevel::Safe => self.safe_minify(input_bytes),
            MinifyLevel::Aggressive => self.aggressive_minify(input_bytes),
        }
    }

    fn stats(&self) -> (r: Option<MinifyStats>) {
        self.last_stats.clone()
    }
}

} // verus!
