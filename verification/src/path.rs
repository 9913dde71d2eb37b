//! Paths as text, with the Unix rules of `std::path`: components are
//! separated by `/`; empty components and `.` components after the first are
//! ignored; a leading `/` is the root and a leading `.` the current
//! directory.

use vstd::prelude::*;
use crate::text::{append, append_str, decimal, push_decimal};

verus! {

pub open spec fn has_root(s: Seq<char>) -> bool {
    s.len() > 0 && s[0] == '/'
}

/// A relative path whose first component is `.`.
pub open spec fn has_cur_dir_prefix(s: Seq<char>) -> bool {
    !has_root(s) && s.len() > 0 && s[0] == '.' && (s.len() == 1 || s[1] == '/')
}

/// Where the components after the root or the leading `.` begin.
pub open spec fn body_start(s: Seq<char>) -> int {
    if has_root(s) || has_cur_dir_prefix(s) {
        1
    } else {
        0
    }
}

/// The index of the last `/` in `s[lo..n]`, or `lo - 1` when there is none.
pub open spec fn sep_before(s: Seq<char>, lo: int, n: int) -> int
    decreases n - lo,
{
    if n <= lo {
        lo - 1
    } else if s[n - 1] == '/' {
        n - 1
    } else {
        sep_before(s, lo, n - 1)
    }
}

/// Where the last component of `s[..n]` begins.
pub open spec fn segment_start(s: Seq<char>, n: int) -> int {
    sep_before(s, body_start(s), n) + 1
}

/// Where `s[..n]` ends once the trailing segment is dropped together with
/// the `/` before it.
pub open spec fn drop_segment(s: Seq<char>, n: int) -> int {
    if segment_start(s, n) > body_start(s) {
        segment_start(s, n) - 1
    } else {
        segment_start(s, n)
    }
}

/// The end of `s[..n]` without trailing separators and `.` components.
pub open spec fn trimmed_end(s: Seq<char>, n: int) -> int
    decreases n,
{
    if n > body_start(s) && (segment_start(s, n) == n || (segment_start(s, n) == n - 1 && s[n - 1]
        == '.')) && drop_segment(s, n) < n {
        trimmed_end(s, drop_segment(s, n))
    } else {
        n
    }
}

pub open spec fn name_end(s: Seq<char>) -> int {
    trimmed_end(s, s.len() as int)
}

pub open spec fn name_start(s: Seq<char>) -> int {
    segment_start(s, name_end(s))
}

/// The path has a component after its root or leading `.`.
pub open spec fn has_body(s: Seq<char>) -> bool {
    name_end(s) > body_start(s)
}

pub open spec fn last_component(s: Seq<char>) -> Seq<char> {
    s.subrange(name_start(s), name_end(s))
}

pub open spec fn is_parent_dir(n: Seq<char>) -> bool {
    n.len() == 2 && n[0] == '.' && n[1] == '.'
}

/// `Path::file_name`: the last component, unless it is `..` or the path
/// ends in its root or leading `.`.
pub open spec fn file_name(s: Seq<char>) -> Option<Seq<char>> {
    if has_body(s) && !is_parent_dir(last_component(s)) {
        Some(last_component(s))
    } else {
        None
    }
}

/// `Path::parent`: the path without its last component; `None` for the root
/// and for the empty path.
pub open spec fn parent(s: Seq<char>) -> Option<Seq<char>> {
    if has_body(s) {
        Some(s.subrange(0, trimmed_end(s, drop_segment(s, name_end(s)))))
    } else if has_cur_dir_prefix(s) {
        Some(Seq::empty())
    } else {
        None
    }
}

/// The index of the last `.` in `n[..k]`, or `-1`.
pub open spec fn last_dot(n: Seq<char>, k: int) -> int
    decreases k,
{
    if k <= 0 {
        -1
    } else if n[k - 1] == '.' {
        k - 1
    } else {
        last_dot(n, k - 1)
    }
}

/// The length of a file name's stem: the part before its last `.`, or the
/// whole name when the only `.` starts it or there is none.
pub open spec fn stem_len(n: Seq<char>) -> int {
    if last_dot(n, n.len() as int) <= 0 {
        n.len() as int
    } else {
        last_dot(n, n.len() as int)
    }
}

/// A file name's extension: the part after its last `.`, unless that `.`
/// starts the name or there is none.
pub open spec fn extension_of(n: Seq<char>) -> Option<Seq<char>> {
    if last_dot(n, n.len() as int) <= 0 {
        None
    } else {
        Some(n.subrange(last_dot(n, n.len() as int) + 1, n.len() as int))
    }
}

/// `Path::join` with a relative path: a `/` goes between them unless the
/// first is empty or already ends with one.
pub open spec fn join_path(p: Seq<char>, x: Seq<char>) -> Seq<char> {
    if p.len() > 0 && p.last() != '/' {
        p + "/"@ + x
    } else {
        p + x
    }
}

/// The parent, or `.` when there is none.
pub open spec fn parent_or_dot(s: Seq<char>) -> Seq<char> {
    match parent(s) {
        Some(p) => p,
        None => "."@,
    }
}

/// The default output path: `dir/name.min.ext` for `dir/name.ext`, and
/// `dir/name.min` for a file name without extension.
pub open spec fn default_output_path(s: Seq<char>) -> Seq<char> {
    match file_name(s) {
        Some(n) => match extension_of(n) {
            Some(e) => join_path(parent_or_dot(s), n.subrange(0, stem_len(n)) + ".min."@ + e),
            None => join_path(parent_or_dot(s), n + ".min"@),
        },
        None => join_path(parent_or_dot(s), ".min"@),
    }
}

/// `PathBuf::set_extension`: the path up to the end of its file stem, then
/// `.` and the new extension when that is not empty; unchanged without a
/// file name.
pub open spec fn with_extension(s: Seq<char>, ext: Seq<char>) -> Seq<char> {
    match file_name(s) {
        Some(n) => s.subrange(0, name_start(s) + stem_len(n)) + if ext.len() > 0 {
            "."@ + ext
        } else {
            Seq::empty()
        },
        None => s,
    }
}

/// The first choice of backup path: `.backup` added to the extension, or
/// `backup` as the extension of a file without one.
pub open spec fn backup_path(s: Seq<char>) -> Seq<char> {
    match file_name(s) {
        Some(n) => match extension_of(n) {
            Some(e) => with_extension(s, e + ".backup"@),
            None => with_extension(s, "backup"@),
        },
        None => s,
    }
}

/// The backup path with a timestamp between its stem and its extension.
pub open spec fn timestamped_backup_path(b: Seq<char>, timestamp: nat) -> Seq<char> {
    let stem = match file_name(b) {
        Some(n) => n.subrange(0, stem_len(n)),
        None => Seq::empty(),
    };
    let ext = match file_name(b) {
        Some(n) => match extension_of(n) {
            Some(e) => e,
            None => Seq::empty(),
        },
        None => Seq::empty(),
    };
    let new_name = stem + "."@ + decimal(timestamp) + "."@ + ext;
    match file_name(b) {
        Some(_) => join_path(parent(b).unwrap(), new_name),
        None => join_path(b, new_name),
    }
}

pub proof fn lemma_sep_before_bounds(s: Seq<char>, lo: int, n: int)
    requires
        lo <= n,
    ensures
        lo - 1 <= sep_before(s, lo, n) < n,
        sep_before(s, lo, n) >= lo ==> s[sep_before(s, lo, n)] == '/',
        forall|j: int| sep_before(s, lo, n) < j < n ==> s[j] != '/',
    decreases n - lo,
{
    if n > lo && s[n - 1] != '/' {
        lemma_sep_before_bounds(s, lo, n - 1);
    }
}

pub proof fn lemma_trimmed_end_bounds(s: Seq<char>, n: int)
    requires
        body_start(s) <= n <= s.len(),
    ensures
        body_start(s) <= trimmed_end(s, n) <= n,
    decreases n,
{
    lemma_sep_before_bounds(s, body_start(s), n);
    if n > body_start(s) && (segment_start(s, n) == n || (segment_start(s, n) == n - 1 && s[n - 1]
        == '.')) && drop_segment(s, n) < n {
        lemma_trimmed_end_bounds(s, drop_segment(s, n));
    }
}

pub proof fn lemma_name_bounds(s: Seq<char>)
    ensures
        body_start(s) <= s.len() ==> body_start(s) <= name_start(s) <= name_end(s) <= s.len(),
{
    if body_start(s) <= s.len() {
        lemma_trimmed_end_bounds(s, s.len() as int);
        lemma_sep_before_bounds(s, body_start(s), name_end(s));
    }
}

/// A component name: no separator in it, and neither `.` nor `..`.
pub open spec fn plain_name(x: Seq<char>) -> bool {
    &&& x.len() >= 3
    &&& forall|j: int| 0 <= j < x.len() ==> x[j] != '/'
}

proof fn lemma_sep_before_skip(s: Seq<char>, lo: int, n: int, m: int)
    requires
        lo <= m <= n,
        forall|j: int| m <= j < n ==> s[j] != '/',
    ensures
        sep_before(s, lo, n) == sep_before(s, lo, m),
    decreases n - m,
{
    if n > m {
        lemma_sep_before_skip(s, lo, n - 1, m);
    }
}

/// Joining a plain name onto a path gives a path whose file name is that
/// name.
pub proof fn lemma_file_name_of_join(p: Seq<char>, x: Seq<char>)
    requires
        plain_name(x),
    ensures
        file_name(join_path(p, x)) == Some(x),
{
    reveal_strlit("/");
    let o = join_path(p, x);
    let n = o.len() as int;
    let start = n - x.len();
    if p.len() > 0 && p.last() != '/' {
        assert(o[p.len() as int] == '/');
        assert(start - 1 == p.len());
    } else if p.len() > 0 {
        assert(o[p.len() - 1] == p.last());
        assert(start - 1 == p.len() - 1);
    }
    assert(o.subrange(start, n) =~= x);
    assert(forall|j: int| start <= j < n ==> o[j] == x[j - start]);
    if start > 0 {
        assert(o[start - 1] == '/');
    } else {
        assert(o =~= x);
        assert(x[1] != '/');
    }
    let bs = body_start(o);
    assert(bs <= start);
    lemma_sep_before_skip(o, bs, n, start);
    if start - 1 >= bs {
        assert(sep_before(o, bs, start) == start - 1);
    } else {
        assert(sep_before(o, bs, start) == bs - 1);
        assert(bs == start);
    }
    assert(segment_start(o, n) == start);
    assert(trimmed_end(o, n) == n);
    assert(name_end(o) == n);
    assert(name_start(o) == start);
    assert(last_component(o) =~= x);
}

/// The file name of a path has no separator in it.
proof fn lemma_file_name_no_separator(s: Seq<char>)
    ensures
        file_name(s) matches Some(n) ==> forall|j: int| 0 <= j < n.len() ==> n[j] != '/',
{
    if file_name(s) is Some {
        lemma_name_bounds(s);
        lemma_sep_before_bounds(s, body_start(s), name_end(s));
        let n = last_component(s);
        assert forall|j: int| 0 <= j < n.len() implies n[j] != '/' by {
            assert(n[j] == s[name_start(s) + j]);
        }
    }
}

proof fn lemma_last_dot_bounds(n: Seq<char>, k: int)
    requires
        0 <= k <= n.len(),
    ensures
        -1 <= last_dot(n, k) < k,
    decreases k,
{
    if k > 0 && n[k - 1] != '.' {
        lemma_last_dot_bounds(n, k - 1);
    }
}

/// The default output path is never the input path: its file name is the
/// input's with `.min` added, so it is longer than the input's file name.
pub proof fn lemma_default_output_path_differs(s: Seq<char>)
    ensures
        default_output_path(s) != s,
        file_name(default_output_path(s)) is Some,
        file_name(s) matches Some(n) ==> file_name(default_output_path(s)).unwrap().len() == n.len()
            + 4,
{
    reveal_strlit(".min.");
    reveal_strlit(".min");
    lemma_file_name_no_separator(s);
    let x = match file_name(s) {
        Some(n) => match extension_of(n) {
            Some(e) => n.subrange(0, stem_len(n)) + ".min."@ + e,
            None => n + ".min"@,
        },
        None => ".min"@,
    };
    match file_name(s) {
        Some(n) => {
            lemma_last_dot_bounds(n, n.len() as int);
            match extension_of(n) {
                Some(e) => {
                    let k = last_dot(n, n.len() as int);
                    assert(x.len() == n.len() + 4);
                    assert forall|j: int| 0 <= j < x.len() implies x[j] != '/' by {
                        if j < k {
                            assert(x[j] == n[j]);
                        } else if j >= k + 5 {
                            assert(x[j] == n[j - 4]);
                        }
                    }
                },
                None => {
                    assert forall|j: int| 0 <= j < x.len() implies x[j] != '/' by {
                        if j < n.len() {
                            assert(x[j] == n[j]);
                        }
                    }
                },
            }
        },
        None => {},
    }
    assert(plain_name(x));
    lemma_file_name_of_join(parent_or_dot(s), x);
    assert(default_output_path(s) == join_path(parent_or_dot(s), x));
    if default_output_path(s) == s {
        assert(file_name(s) == Some(x));
    }
}

/// The part of a path before its file name is empty or ends with a
/// separator.
proof fn lemma_before_name(s: Seq<char>)
    requires
        file_name(s) is Some,
    ensures
        name_start(s) == 0 || s[name_start(s) - 1] == '/',
        0 <= name_start(s) <= name_end(s) <= s.len(),
{
    lemma_name_bounds(s);
    lemma_sep_before_bounds(s, body_start(s), name_end(s));
    if name_start(s) > 0 && sep_before(s, body_start(s), name_end(s)) < body_start(s) {
        if has_cur_dir_prefix(s) {
            assert(s[1] != '/');
        }
    }
}

/// The backup copy of a file never takes the file's own path: its file name
/// is the file's with `.backup` added to the extension, or `.backup` added
/// when there is none. (A path without a file name, such as `..`, is its own
/// first choice of backup path.)
pub proof fn lemma_backup_path_differs(s: Seq<char>)
    requires
        file_name(s) is Some,
    ensures
        backup_path(s) != s,
        file_name(backup_path(s)).unwrap().len() == file_name(s).unwrap().len() + 7,
{
    reveal_strlit(".backup");
    reveal_strlit("backup");
    reveal_strlit(".");
    lemma_file_name_no_separator(s);
    lemma_before_name(s);
    let n = file_name(s).unwrap();
    let ns = name_start(s);
    lemma_last_dot_bounds(n, n.len() as int);
    let ext = match extension_of(n) {
        Some(e) => e + ".backup"@,
        None => "backup"@,
    };
    let stem = n.subrange(0, stem_len(n));
    let x = stem + "."@ + ext;
    let prefix = s.subrange(0, ns);
    assert(s.subrange(0, ns + stem_len(n)) =~= prefix + stem);
    assert(backup_path(s) =~= prefix + x);
    assert(x.len() == n.len() + 7);
    assert forall|j: int| 0 <= j < x.len() implies x[j] != '/' by {
        let k = stem_len(n);
        if j < k {
            assert(x[j] == n[j]);
        } else if j > k && extension_of(n) is Some && j < n.len() {
            assert(x[j] == n[j]);
        }
    }
    assert(plain_name(x));
    assert(join_path(prefix, x) =~= prefix + x);
    lemma_file_name_of_join(prefix, x);
}

fn body_start_of(s: &[char]) -> (r: usize)
    ensures
        r == body_start(s@),
        r <= s@.len(),
{
    if s.len() > 0 && s[0] == '/' {
        1
    } else if s.len() > 0 && s[0] == '.' && (s.len() == 1 || s[1] == '/') {
        1
    } else {
        0
    }
}

fn segment_start_of(s: &[char], n: usize) -> (r: usize)
    requires
        body_start(s@) <= n <= s@.len(),
    ensures
        r == segment_start(s@, n as int),
        body_start(s@) <= r <= n,
{
    let bs = body_start_of(s);
    let mut j: usize = n;
    while j > bs && s[j - 1] != '/'
        invariant
            bs == body_start(s@),
            bs <= j <= n <= s@.len(),
            sep_before(s@, bs as int, n as int) == sep_before(s@, bs as int, j as int),
        decreases j,
    {
        j -= 1;
    }
    j
}

fn trimmed_end_of(s: &[char], n: usize) -> (r: usize)
    requires
        body_start(s@) <= n <= s@.len(),
    ensures
        r == trimmed_end(s@, n as int),
        body_start(s@) <= r <= n,
{
    let bs = body_start_of(s);
    let mut m: usize = n;
    while m > bs
        invariant
            bs == body_start(s@),
            bs <= m <= n <= s@.len(),
            trimmed_end(s@, m as int) == trimmed_end(s@, n as int),
        decreases m,
    {
        let a = segment_start_of(s, m);
        let drop = if a > bs {
            a - 1
        } else {
            a
        };
        if (a == m || (a + 1 == m && s[m - 1] == '.')) && drop < m {
            m = drop;
        } else {
            return m;
        }
    }
    m
}

/// Where the last component of a path begins and ends, when the path has one.
fn name_bounds(s: &[char]) -> (r: (usize, usize))
    ensures
        r.0 == name_start(s@),
        r.1 == name_end(s@),
        body_start(s@) <= r.0 <= r.1 <= s@.len(),
{
    let end = trimmed_end_of(s, s.len());
    let start = segment_start_of(s, end);
    (start, end)
}

fn copy_range(s: &[char], a: usize, b: usize) -> (r: Vec<char>)
    requires
        a <= b <= s@.len(),
    ensures
        r@ == s@.subrange(a as int, b as int),
{
    let mut out: Vec<char> = Vec::new();
    let mut k: usize = a;
    while k < b
        invariant
            a <= k <= b <= s@.len(),
            out@ == s@.subrange(a as int, k as int),
        decreases b - k,
    {
        out.push(s[k]);
        assert(out@ =~= s@.subrange(a as int, k + 1));
        k += 1;
    }
    out
}

/// The last component of a path, unless it is `..` or missing.
pub fn file_name_of(s: &[char]) -> (r: Option<Vec<char>>)
    ensures
        r matches Some(n) ==> file_name(s@) == Some(n@),
        r is None ==> file_name(s@) is None,
{
    let bs = body_start_of(s);
    let (start, end) = name_bounds(s);
    if end > bs && !(end - start == 2 && s[start] == '.' && s[start + 1] == '.') {
        Some(copy_range(s, start, end))
    } else {
        None
    }
}

/// The parent of a path.
pub fn parent_of(s: &[char]) -> (r: Option<Vec<char>>)
    ensures
        r matches Some(p) ==> parent(s@) == Some(p@),
        r is None ==> parent(s@) is None,
{
    let bs = body_start_of(s);
    let (start, end) = name_bounds(s);
    if end > bs {
        let drop = if start > bs {
            start - 1
        } else {
            start
        };
        let e = trimmed_end_of(s, drop);
        Some(copy_range(s, 0, e))
    } else if s.len() > 0 && s[0] == '.' && (s.len() == 1 || s[1] == '/') {
        Some(Vec::new())
    } else {
        None
    }
}

/// The stem length and, when there is one, the start of the extension of a
/// file name.
fn split_name(n: &[char]) -> (r: (usize, Option<usize>))
    ensures
        r.0 == stem_len(n@),
        r.1 matches Some(k) ==> extension_of(n@) == Some(n@.subrange(k as int, n@.len() as int))
            && k <= n@.len(),
        r.1 is None ==> extension_of(n@) is None,
        r.0 <= n@.len(),
{
    let mut k: usize = n.len();
    while k > 0 && n[k - 1] != '.'
        invariant
            k <= n@.len(),
            last_dot(n@, n@.len() as int) == last_dot(n@, k as int),
        decreases k,
    {
        k -= 1;
    }
    if k <= 1 {
        (n.len(), None)
    } else {
        (k - 1, Some(k))
    }
}

/// Joins a relative path onto a path.
pub fn join_onto(p: &[char], x: &[char]) -> (r: Vec<char>)
    ensures
        r@ == join_path(p@, x@),
{
    let mut out: Vec<char> = Vec::new();
    append(&mut out, p);
    if p.len() > 0 && p[p.len() - 1] != '/' {
        append_str(&mut out, "/");
    }
    append(&mut out, x);
    out
}

fn parent_or_dot_of(s: &[char]) -> (r: Vec<char>)
    ensures
        r@ == parent_or_dot(s@),
{
    match parent_of(s) {
        Some(p) => p,
        None => {
            let mut d: Vec<char> = Vec::new();
            append_str(&mut d, ".");
            d
        },
    }
}

/// The default output path of an input path: `.min` inserted before the
/// extension, or appended to a file name without one.
pub fn default_output_path_of(s: &[char]) -> (r: Vec<char>)
    ensures
        r@ == default_output_path(s@),
{
    let parent = parent_or_dot_of(s);
    let mut name: Vec<char> = Vec::new();
    match file_name_of(s) {
        Some(n) => {
            let (stem, ext) = split_name(n.as_slice());
            match ext {
                Some(k) => {
                    append(&mut name, copy_range(n.as_slice(), 0, stem).as_slice());
                    append_str(&mut name, ".min.");
                    append(&mut name, copy_range(n.as_slice(), k, n.len()).as_slice());
                },
                None => {
                    append(&mut name, n.as_slice());
                    append_str(&mut name, ".min");
                },
            }
        },
        None => {
            append_str(&mut name, ".min");
        },
    }
    join_onto(parent.as_slice(), name.as_slice())
}

/// `PathBuf::set_extension` on a path as text.
pub fn with_extension_of(s: &[char], ext: &[char]) -> (r: Vec<char>)
    ensures
        r@ == with_extension(s@, ext@),
{
    match file_name_of(s) {
        Some(n) => {
            let (start, _end) = name_bounds(s);
            let (stem, _ext) = split_name(n.as_slice());
            proof {
                lemma_name_bounds(s@);
            }
            let mut out = copy_range(s, 0, start + stem);
            if ext.len() > 0 {
                append_str(&mut out, ".");
                append(&mut out, ext);
            }
            out
        },
        None => copy_range(s, 0, s.len()),
    }
}

/// The first choice of backup path for a file.
pub fn backup_path_of(s: &[char]) -> (r: Vec<char>)
    ensures
        r@ == backup_path(s@),
{
    match file_name_of(s) {
        Some(n) => {
            let (_stem, ext) = split_name(n.as_slice());
            let mut new_ext: Vec<char> = Vec::new();
            match ext {
                Some(k) => {
                    append(&mut new_ext, copy_range(n.as_slice(), k, n.len()).as_slice());
                    append_str(&mut new_ext, ".backup");
                },
                None => {
                    append_str(&mut new_ext, "backup");
                },
            }
            with_extension_of(s, new_ext.as_slice())
        },
        None => copy_range(s, 0, s.len()),
    }
}

/// A backup path with a timestamp between its stem and its extension.
pub fn timestamped_backup_path_of(b: &[char], timestamp: usize) -> (r: Vec<char>)
    ensures
        r@ == timestamped_backup_path(b@, timestamp as nat),
{
    let name = file_name_of(b);
    let mut new_name: Vec<char> = Vec::new();
    match &name {
        Some(n) => {
            let (stem, ext) = split_name(n.as_slice());
            append(&mut new_name, copy_range(n.as_slice(), 0, stem).as_slice());
            append_str(&mut new_name, ".");
            push_decimal(&mut new_name, timestamp);
            append_str(&mut new_name, ".");
            if let Some(k) = ext {
                append(&mut new_name, copy_range(n.as_slice(), k, n.len()).as_slice());
            }
        },
        None => {
            append_str(&mut new_name, ".");
            push_decimal(&mut new_name, timestamp);
            append_str(&mut new_name, ".");
        },
    }
    match name {
        Some(_) => {
            let p = parent_of(b);
            match p {
                Some(p) => join_onto(p.as_slice(), new_name.as_slice()),
                None => join_onto(b, new_name.as_slice()),
            }
        },
        None => join_onto(b, new_name.as_slice()),
    }
}

} // verus!
