//! Character-sequence operations: substring search and counting, literal
//! replacement, line counting, trimming, joining and decimal formatting.

use vstd::prelude::*;
use crate::strings::{chars_of, is_white_space, string_of, unicode_white_space};

verus! {

/// `needle` occurs in `hay` at index `i`.
pub open spec fn occurs_at(hay: Seq<char>, needle: Seq<char>, i: int) -> bool {
    &&& 0 <= i
    &&& i + needle.len() <= hay.len()
    &&& forall|k: int| 0 <= k < needle.len() ==> hay[i + k] == #[trigger] needle[k]
}

/// `needle` occurs somewhere in `hay` (`str::contains`).
pub open spec fn contains(hay: Seq<char>, needle: Seq<char>) -> bool {
    exists|i: int| occurs_at(hay, needle, i)
}

/// Number of non-overlapping occurrences of a non-empty `needle` in `hay` at
/// or after index `i`, found from left to right (`str::matches(..).count()`).
pub open spec fn count_from(hay: Seq<char>, needle: Seq<char>, i: int) -> nat
    decreases hay.len() - i,
{
    if needle.len() == 0 || i < 0 || i + needle.len() > hay.len() {
        0
    } else if occurs_at(hay, needle, i) {
        1 + count_from(hay, needle, i + needle.len())
    } else {
        count_from(hay, needle, i + 1)
    }
}

pub open spec fn count_matches(hay: Seq<char>, needle: Seq<char>) -> nat {
    count_from(hay, needle, 0)
}

/// `hay[i..]` with every non-overlapping occurrence of a non-empty `from`,
/// found from left to right, replaced by `to` (`str::replace`).
pub open spec fn replace_from(hay: Seq<char>, from: Seq<char>, to: Seq<char>, i: int) -> Seq<char>
    decreases hay.len() - i,
{
    if i < 0 || i >= hay.len() {
        Seq::empty()
    } else if from.len() > 0 && occurs_at(hay, from, i) {
        to + replace_from(hay, from, to, i + from.len())
    } else {
        seq![hay[i]] + replace_from(hay, from, to, i + 1)
    }
}

pub open spec fn replace_all(hay: Seq<char>, from: Seq<char>, to: Seq<char>) -> Seq<char> {
    replace_from(hay, from, to, 0)
}

/// Number of `'\n'` characters.
pub open spec fn newline_count(s: Seq<char>) -> nat
    decreases s.len(),
{
    if s.len() == 0 {
        0
    } else {
        newline_count(s.drop_last()) + if s.last() == '\n' { 1nat } else { 0nat }
    }
}

/// Number of lines that `str::lines` yields: a final line without a
/// terminating `'\n'` counts, an empty text has no line.
pub open spec fn line_count(s: Seq<char>) -> nat {
    if s.len() == 0 {
        0
    } else if s.last() == '\n' {
        newline_count(s)
    } else {
        newline_count(s) + 1
    }
}

pub open spec fn trim_start(s: Seq<char>) -> Seq<char>
    decreases s.len(),
{
    if s.len() > 0 && unicode_white_space(s[0]) {
        trim_start(s.drop_first())
    } else {
        s
    }
}

pub open spec fn trim_end(s: Seq<char>) -> Seq<char>
    decreases s.len(),
{
    if s.len() > 0 && unicode_white_space(s.last()) {
        trim_end(s.drop_last())
    } else {
        s
    }
}

/// `str::trim`: leading and trailing `White_Space` characters removed.
pub open spec fn trim(s: Seq<char>) -> Seq<char> {
    trim_end(trim_start(s))
}

pub open spec fn digit_char(d: int) -> char {
    if d <= 0 {
        '0'
    } else if d == 1 {
        '1'
    } else if d == 2 {
        '2'
    } else if d == 3 {
        '3'
    } else if d == 4 {
        '4'
    } else if d == 5 {
        '5'
    } else if d == 6 {
        '6'
    } else if d == 7 {
        '7'
    } else if d == 8 {
        '8'
    } else {
        '9'
    }
}

/// Decimal digits of a natural number, as `Display` writes it.
pub open spec fn decimal(n: nat) -> Seq<char>
    decreases n,
{
    if n < 10 {
        seq![digit_char(n as int)]
    } else {
        decimal(n / 10).push(digit_char((n % 10) as int))
    }
}

/// The parts joined with `sep` between consecutive parts (`[T]::join`).
pub open spec fn join(parts: Seq<Seq<char>>, sep: Seq<char>) -> Seq<char>
    decreases parts.len(),
{
    if parts.len() == 0 {
        Seq::empty()
    } else if parts.len() == 1 {
        parts[0]
    } else {
        join(parts.drop_last(), sep) + sep + parts.last()
    }
}

/// Replacing occurrences by a text no longer than what it replaces never
/// makes the text longer.
pub proof fn lemma_replace_from_shrinks(hay: Seq<char>, from: Seq<char>, to: Seq<char>, i: int)
    requires
        0 <= i <= hay.len(),
        to.len() <= from.len(),
    ensures
        replace_from(hay, from, to, i).len() <= hay.len() - i,
    decreases hay.len() - i,
{
    if i < hay.len() {
        if from.len() > 0 && occurs_at(hay, from, i) {
            lemma_replace_from_shrinks(hay, from, to, i + from.len());
        } else {
            lemma_replace_from_shrinks(hay, from, to, i + 1);
        }
    }
}

/// Trimming never makes a text longer.
pub proof fn lemma_trim_shrinks(s: Seq<char>)
    ensures
        trim_start(s).len() <= s.len(),
        trim_end(s).len() <= s.len(),
        trim(s).len() <= s.len(),
    decreases s.len(),
{
    if s.len() > 0 {
        lemma_trim_shrinks(s.drop_first());
        lemma_trim_shrinks(s.drop_last());
    }
    lemma_trim_end_shrinks(trim_start(s));
}

proof fn lemma_trim_end_shrinks(s: Seq<char>)
    ensures
        trim_end(s).len() <= s.len(),
    decreases s.len(),
{
    if s.len() > 0 {
        lemma_trim_end_shrinks(s.drop_last());
    }
}

pub proof fn lemma_newline_count_bound(s: Seq<char>)
    ensures
        newline_count(s) <= s.len(),
    decreases s.len(),
{
    if s.len() > 0 {
        lemma_newline_count_bound(s.drop_last());
    }
}

pub fn occurs_at_index(hay: &[char], needle: &[char], i: usize) -> (r: bool)
    ensures
        r == occurs_at(hay@, needle@, i as int),
{
    if i > hay.len() || needle.len() > hay.len() - i {
        return false;
    }
    let mut k: usize = 0;
    while k < needle.len()
        invariant
            k <= needle.len(),
            i + needle.len() <= hay.len(),
            forall|j: int| 0 <= j < k ==> hay@[i + j] == #[trigger] needle@[j],
        decreases needle.len() - k,
    {
        if hay[i + k] != needle[k] {
            return false;
        }
        k += 1;
    }
    true
}

pub fn contains_chars(hay: &[char], needle: &[char]) -> (r: bool)
    ensures
        r == contains(hay@, needle@),
{
    if needle.len() > hay.len() {
        assert forall|i: int| !occurs_at(hay@, needle@, i) by {}
        return false;
    }
    let last = hay.len() - needle.len();
    let mut i: usize = 0;
    while i <= last
        invariant
            last == hay.len() - needle.len(),
            forall|j: int| 0 <= j < i ==> !occurs_at(hay@, needle@, j),
        decreases last + 1 - i,
    {
        if occurs_at_index(hay, needle, i) {
            return true;
        }
        i += 1;
    }
    assert forall|j: int| !occurs_at(hay@, needle@, j) by {
        if j > last {
            assert(!occurs_at(hay@, needle@, j));
        }
    }
    false
}

/// `hay` contains the characters of `needle`.
pub fn contains_str(hay: &[char], needle: &str) -> (r: bool)
    ensures
        r == contains(hay@, needle@),
{
    let n = chars_of(needle);
    contains_chars(hay, n.as_slice())
}

pub fn count_occurrences(hay: &[char], needle: &[char]) -> (r: usize)
    requires
        needle@.len() > 0,
    ensures
        r == count_matches(hay@, needle@),
{
    let n = needle.len();
    let mut i: usize = 0;
    let mut acc: usize = 0;
    while i <= hay.len() && n <= hay.len() - i
        invariant
            n == needle@.len(),
            n > 0,
            i <= hay.len() + n,
            acc <= i,
            acc + count_from(hay@, needle@, i as int) == count_from(hay@, needle@, 0),
        decreases hay.len() + n - i,
    {
        if occurs_at_index(hay, needle, i) {
            acc += 1;
            i += n;
        } else {
            i += 1;
        }
    }
    acc
}

/// Number of non-overlapping occurrences of the characters of `needle`.
pub fn count_str(hay: &[char], needle: &str) -> (r: usize)
    requires
        needle@.len() > 0,
    ensures
        r == count_matches(hay@, needle@),
{
    let n = chars_of(needle);
    count_occurrences(hay, n.as_slice())
}

pub fn replace_chars(hay: &[char], from: &[char], to: &[char]) -> (r: Vec<char>)
    requires
        from@.len() > 0,
    ensures
        r@ == replace_all(hay@, from@, to@),
{
    let mut out: Vec<char> = Vec::new();
    let mut i: usize = 0;
    while i < hay.len()
        invariant
            from@.len() > 0,
            i <= hay.len(),
            out@ + replace_from(hay@, from@, to@, i as int) == replace_from(hay@, from@, to@, 0),
        decreases hay.len() - i,
    {
        let ghost prev = out@;
        if occurs_at_index(hay, from, i) {
            append(&mut out, to);
            assert(prev + replace_from(hay@, from@, to@, i as int) =~= out@ + replace_from(
                hay@,
                from@,
                to@,
                i + from@.len(),
            ));
            i += from.len();
        } else {
            out.push(hay[i]);
            assert(prev + replace_from(hay@, from@, to@, i as int) =~= out@ + replace_from(
                hay@,
                from@,
                to@,
                i + 1,
            ));
            i += 1;
        }
    }
    assert(out@ =~= out@ + replace_from(hay@, from@, to@, i as int));
    out
}

/// `str::replace` with literal patterns.
pub fn replace_str(hay: &[char], from: &str, to: &str) -> (r: Vec<char>)
    requires
        from@.len() > 0,
    ensures
        r@ == replace_all(hay@, from@, to@),
{
    let f = chars_of(from);
    let t = chars_of(to);
    replace_chars(hay, f.as_slice(), t.as_slice())
}

pub fn lines_in(s: &[char]) -> (r: usize)
    ensures
        r == line_count(s@),
{
    let mut n: usize = 0;
    let mut i: usize = 0;
    while i < s.len()
        invariant
            i <= s.len(),
            n <= i,
            n == newline_count(s@.take(i as int)),
        decreases s.len() - i,
    {
        assert(s@.take(i + 1).drop_last() =~= s@.take(i as int));
        if s[i] == '\n' {
            n += 1;
        }
        i += 1;
    }
    assert(s@.take(s.len() as int) =~= s@);
    if s.len() == 0 {
        0
    } else if s[s.len() - 1] == '\n' {
        n
    } else {
        proof {
            lemma_newline_count_bound(s@.drop_last());
        }
        n + 1
    }
}

pub fn trimmed(s: &[char]) -> (r: Vec<char>)
    ensures
        r@ == trim(s@),
{
    let len = s.len();
    assert(s@.subrange(0, len as int) =~= s@);
    let mut a: usize = 0;
    while a < len && is_white_space(s[a])
        invariant
            a <= len,
            len == s@.len(),
            trim_start(s@.subrange(a as int, len as int)) == trim_start(s@),
        decreases len - a,
    {
        assert(s@.subrange(a as int, len as int).drop_first() =~= s@.subrange(a + 1, len as int));
        a += 1;
    }
    let mut b: usize = len;
    while b > a && is_white_space(s[b - 1])
        invariant
            a <= b <= len,
            len == s@.len(),
            trim_start(s@) == s@.subrange(a as int, len as int),
            trim_end(s@.subrange(a as int, b as int)) == trim(s@),
        decreases b - a,
    {
        assert(s@.subrange(a as int, b as int).drop_last() =~= s@.subrange(a as int, b - 1));
        b -= 1;
    }
    let mut out: Vec<char> = Vec::new();
    let mut k: usize = a;
    while k < b
        invariant
            a <= k <= b <= len,
            len == s@.len(),
            out@ =~= s@.subrange(a as int, k as int),
        decreases b - k,
    {
        out.push(s[k]);
        k += 1;
    }
    out
}

pub fn digit(d: usize) -> (c: char)
    requires
        d < 10,
    ensures
        c == digit_char(d as int),
{
    match d {
        0 => '0',
        1 => '1',
        2 => '2',
        3 => '3',
        4 => '4',
        5 => '5',
        6 => '6',
        7 => '7',
        8 => '8',
        _ => '9',
    }
}

/// Appends the decimal digits of `n`.
pub fn push_decimal(out: &mut Vec<char>, n: usize)
    ensures
        final(out)@ == old(out)@ + decimal(n as nat),
    decreases n,
{
    if n >= 10 {
        push_decimal(out, n / 10);
    }
    out.push(digit(n % 10));
    proof {
        if n >= 10 {
            assert(old(out)@ + decimal(n as nat) =~= old(out)@ + decimal((n / 10) as nat) + seq![
                digit_char((n % 10) as int),
            ]);
        }
    }
}

/// Appends the decimal digits of a 64-bit number.
pub fn push_decimal_u64(out: &mut Vec<char>, n: u64)
    ensures
        final(out)@ == old(out)@ + decimal(n as nat),
    decreases n,
{
    if n >= 10 {
        push_decimal_u64(out, n / 10);
    }
    let d = (n % 10) as usize;
    out.push(digit(d));
    proof {
        if n >= 10 {
            assert(old(out)@ + decimal(n as nat) =~= old(out)@ + decimal((n / 10) as nat) + seq![
                digit_char((n % 10) as int),
            ]);
        }
    }
}

/// Appends the characters of `s`.
pub fn append(out: &mut Vec<char>, s: &[char])
    ensures
        final(out)@ == old(out)@ + s@,
{
    let mut i: usize = 0;
    while i < s.len()
        invariant
            i <= s.len(),
            out@ =~= old(out)@ + s@.take(i as int),
        decreases s.len() - i,
    {
        out.push(s[i]);
        i += 1;
    }
    assert(s@.take(s.len() as int) =~= s@);
}

/// Appends the characters of a string slice.
pub fn append_str(out: &mut Vec<char>, s: &str)
    ensures
        final(out)@ == old(out)@ + s@,
{
    let c = chars_of(s);
    append(out, c.as_slice());
}

/// The parts joined with `sep` between consecutive parts.
pub fn join_parts(parts: &Vec<Vec<char>>, sep: &str) -> (r: Vec<char>)
    ensures
        r@ == join(parts@.map_values(|p: Vec<char>| p@), sep@),
{
    let ghost views = parts@.map_values(|p: Vec<char>| p@);
    let mut out: Vec<char> = Vec::new();
    let mut i: usize = 0;
    while i < parts.len()
        invariant
            i <= parts.len(),
            views == parts@.map_values(|p: Vec<char>| p@),
            out@ == join(views.take(i as int), sep@),
        decreases parts.len() - i,
    {
        assert(views.take(i + 1).drop_last() =~= views.take(i as int));
        if i > 0 {
            append_str(&mut out, sep);
        } else {
            assert(out@ =~= Seq::<char>::empty());
        }
        append(&mut out, parts[i].as_slice());
        proof {
            if i > 0 {
                assert(out@ =~= join(views.take(i as int), sep@) + sep@ + views.take(i + 1).last());
            } else {
                assert(out@ =~= views.take(1)[0]);
            }
        }
        i += 1;
    }
    assert(views.take(parts.len() as int) =~= views);
    out
}

/// A `String` holding the characters of a string slice.
pub fn string_from_str(s: &str) -> (r: String)
    ensures
        r@ == s@,
{
    let mut v: Vec<char> = Vec::new();
    append_str(&mut v, s);
    string_of(v.as_slice())
}

} // verus!
