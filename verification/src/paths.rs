//! The path mapper: translates a local absolute path into the path of the
//! same file under the remote mirror root.
//!
//! Local and remote roots are configured independently and may differ in
//! every segment except the final mirrored directory name, so the mapper
//! matches on that basename rather than stripping the local root as a
//! literal prefix: it locates the rightmost occurrence of the local
//! root's basename as a whole path segment of the input, and joins the
//! remote root with everything after it, with separators normalized to
//! forward slashes.

use vstd::prelude::*;
use crate::text::match_at;
use crate::text::push_char;

verus! {

/// Why a path could not be mapped onto the remote tree.
#[derive(Clone, Copy, PartialEq, Eq, Structural, Debug)]
pub enum PathMappingError {
    /// The mirrored root has no usable final path component.
    NoRootBasename,
    /// The input path does not contain the mirrored root's basename as a
    /// path segment.
    BasenameNotInPath,
}

/// A path separator: forward slash or backslash.
pub open spec fn is_sep(c: char) -> bool {
    c == '/' || c == '\\'
}

/// An ASCII whitespace character, as trimmed from path segments.
pub open spec fn is_space(c: char) -> bool {
    c == ' ' || c == '\t' || c == '\n' || c == '\r'
}

/// Empty, or whitespace throughout.
pub open spec fn is_blank(s: Seq<char>) -> bool {
    forall|i: int| 0 <= i < s.len() ==> is_space(#[trigger] s[i])
}

/// A backslash becomes a forward slash; everything else is kept.
pub open spec fn norm_char(c: char) -> char {
    if c == '\\' {
        '/'
    } else {
        c
    }
}

/// The string with every backslash replaced by a forward slash.
pub open spec fn norm_seps(s: Seq<char>) -> Seq<char> {
    s.map_values(|c: char| norm_char(c))
}

/// Start of the final segment: the position after the last separator,
/// or zero when the string holds no separator.
pub open spec fn last_seg_start(s: Seq<char>) -> int
    decreases s.len(),
{
    if s.len() == 0 {
        0
    } else if is_sep(s.last()) {
        s.len() as int
    } else {
        last_seg_start(s.drop_last())
    }
}

pub proof fn lemma_last_seg_start(s: Seq<char>)
    ensures
        0 <= last_seg_start(s) <= s.len(),
        forall|j: int| last_seg_start(s) <= j < s.len() ==> !is_sep(#[trigger] s[j]),
        last_seg_start(s) == 0 || is_sep(s[last_seg_start(s) - 1]),
    decreases s.len(),
{
    if s.len() > 0 && !is_sep(s.last()) {
        lemma_last_seg_start(s.drop_last());
        assert(forall|j: int| 0 <= j < s.len() - 1 ==> #[trigger] s[j] == s.drop_last()[j]);
    }
}

pub proof fn lemma_last_seg_start_unique(s: Seq<char>, j: int)
    requires
        0 <= j <= s.len(),
        forall|m: int| j <= m < s.len() ==> !is_sep(#[trigger] s[m]),
        j == 0 || is_sep(s[j - 1]),
    ensures
        last_seg_start(s) == j,
    decreases s.len(),
{
    if s.len() == 0 {
    } else if is_sep(s.last()) {
        assert(j == s.len());
    } else {
        assert(j < s.len());
        lemma_last_seg_start_unique(s.drop_last(), j);
    }
}

/// The basename of a path: its rightmost non-blank segment, kept whole.
/// `None` when every segment is blank.
pub open spec fn basename_of(s: Seq<char>) -> Option<Seq<char>>
    decreases s.len(),
    via basename_of_dec
{
    if s.len() == 0 {
        None
    } else {
        let k = last_seg_start(s);
        if !is_blank(s.subrange(k, s.len() as int)) {
            Some(s.subrange(k, s.len() as int))
        } else if k == 0 {
            None
        } else {
            basename_of(s.subrange(0, k - 1))
        }
    }
}

#[via_fn]
proof fn basename_of_dec(s: Seq<char>) {
    lemma_last_seg_start(s);
}

/// Replaces every backslash in the string by a forward slash.
pub fn normalize_separators(s: &str) -> (r: String)
    ensures
        r@ == norm_seps(s@),
{
    let n = s.unicode_len();
    let mut out = String::new();
    let mut i: usize = 0;
    while i < n
        invariant
            n == s@.len(),
            0 <= i <= n,
            out@ == norm_seps(s@.take(i as int)),
        decreases n - i,
    {
        let c = s.get_char(i);
        if c == '\\' {
            push_char(&mut out, '/');
        } else {
            push_char(&mut out, c);
        }
        proof {
            assert(norm_seps(s@.take(i + 1)) =~= norm_seps(s@.take(i as int)).push(
                norm_char(s@[i as int]),
            ));
        }
        i += 1;
    }
    proof {
        assert(s@.take(n as int) =~= s@);
    }
    out
}

/// Extracts the final non-blank path component of `filepath`; both
/// slashes and backslashes separate components, and components that are
/// only whitespace are passed over. Fails exactly when no component
/// holds a non-whitespace character.
pub fn get_basename(filepath: &str) -> (r: Result<String, PathMappingError>)
    ensures
        match r {
            Ok(b) => basename_of(filepath@) == Some(b@),
            Err(e) => basename_of(filepath@) is None && e == PathMappingError::NoRootBasename,
        },
{
    let n = filepath.unicode_len();
    let mut end: usize = n;
    proof {
        assert(filepath@.take(n as int) =~= filepath@);
    }
    loop
        invariant
            n == filepath@.len(),
            0 <= end <= n,
            basename_of(filepath@.take(end as int)) == basename_of(filepath@),
        decreases end,
    {
        if end == 0 {
            assert(filepath@.take(0) =~= Seq::<char>::empty());
            return Err(PathMappingError::NoRootBasename);
        }
        // find the start of the last segment of filepath[..end]
        let ghost pre = filepath@.take(end as int);
        let mut j: usize = end;
        let mut at_boundary: bool = false;
        while j > 0 && !at_boundary
            invariant
                n == filepath@.len(),
                0 <= j <= end <= n,
                pre == filepath@.take(end as int),
                forall|m: int| j <= m < end ==> !is_sep(#[trigger] filepath@[m]),
                at_boundary ==> j > 0 && is_sep(filepath@[j - 1]),
            decreases j + (if at_boundary { 0int } else { 1int }),
        {
            let c = filepath.get_char(j - 1);
            if c == '/' || c == '\\' {
                at_boundary = true;
            } else {
                j -= 1;
            }
        }
        proof {
            assert(forall|m: int| j <= m < pre.len() ==> !is_sep(#[trigger] pre[m]));
            lemma_last_seg_start_unique(pre, j as int);
        }
        // check whether the segment filepath[j..end] is blank
        let mut m: usize = j;
        let mut blank: bool = true;
        while m < end && blank
            invariant
                n == filepath@.len(),
                0 <= j <= m <= end <= n,
                blank ==> is_blank(filepath@.subrange(j as int, m as int)),
                !blank ==> !is_blank(filepath@.subrange(j as int, end as int)),
            decreases end - m + (if blank { 1int } else { 0int }),
        {
            let c = filepath.get_char(m);
            if c == ' ' || c == '\t' || c == '\n' || c == '\r' {
                proof {
                    let sub = filepath@.subrange(j as int, m + 1);
                    assert(sub.drop_last() =~= filepath@.subrange(j as int, m as int));
                    assert(sub.last() == filepath@[m as int]);
                    assert(forall|x: int|
                        0 <= x < sub.len() - 1 ==> sub[x] == #[trigger] sub.drop_last()[x]);
                    assert(is_blank(sub));
                }
                m += 1;
            } else {
                blank = false;
                proof {
                    assert(!is_blank(filepath@.subrange(j as int, end as int))) by {
                        assert(filepath@.subrange(j as int, end as int)[m - j]
                            == filepath@[m as int]);
                    }
                }
            }
        }
        proof {
            if blank {
                assert(filepath@.subrange(j as int, m as int) =~= filepath@.subrange(
                    j as int,
                    end as int,
                ));
            }
        }
        if !blank {
            let seg = filepath.substring_char(j, end);
            proof {
                assert(pre.subrange(j as int, pre.len() as int) =~= filepath@.subrange(
                    j as int,
                    end as int,
                ));
            }
            return Ok(seg.to_owned());
        }
        if j == 0 {
            assert(pre.subrange(0, pre.len() as int) =~= pre);
            return Err(PathMappingError::NoRootBasename);
        }
        proof {
            assert(pre.subrange(j as int, pre.len() as int) =~= filepath@.subrange(
                j as int,
                end as int,
            ));
            assert(pre.subrange(0, j - 1) =~= filepath@.take(j - 1));
        }
        end = j - 1;
    }
}

/// `base` occupies a whole path segment of `s` starting at `i`: bounded
/// on each side by a forward slash or an end of the string.
pub open spec fn is_seg_at(s: Seq<char>, base: Seq<char>, i: int) -> bool {
    &&& 0 <= i
    &&& i + base.len() <= s.len()
    &&& s.subrange(i, i + base.len()) == base
    &&& (i == 0 || s[i - 1] == '/')
    &&& (i + base.len() == s.len() || s[i + base.len()] == '/')
}

/// Position of the rightmost segment occurrence of `base` in `s` at or
/// before position `k`.
pub open spec fn rightmost_seg(s: Seq<char>, base: Seq<char>, k: int) -> Option<int>
    decreases k + 1,
{
    if k < 0 {
        None
    } else if is_seg_at(s, base, k) {
        Some(k)
    } else {
        rightmost_seg(s, base, k - 1)
    }
}

pub proof fn lemma_rightmost_seg_some(s: Seq<char>, base: Seq<char>, k: int, i: int)
    requires
        i <= k,
        is_seg_at(s, base, i),
    ensures
        rightmost_seg(s, base, k) is Some,
    decreases k + 1,
{
    if !is_seg_at(s, base, k) {
        lemma_rightmost_seg_some(s, base, k - 1, i);
    }
}

/// What remains of `s` after the segment `[i, i + blen)` and the
/// separator that follows it, when one does.
pub open spec fn seg_tail(s: Seq<char>, i: int, blen: int) -> Seq<char> {
    if i + blen == s.len() {
        Seq::empty()
    } else {
        s.subrange(i + blen + 1, s.len() as int)
    }
}

/// Joins `b` under `a`: a single separator is placed between them unless
/// `a` already ends in one; an empty `b` leaves `a` as it is.
pub open spec fn join_spec(a: Seq<char>, b: Seq<char>) -> Seq<char> {
    if b.len() == 0 {
        a
    } else if a.len() > 0 && is_sep(a.last()) {
        a + b
    } else {
        a + seq!['/'] + b
    }
}

/// The remote path that `map_to_remote` produces: `None` when the local
/// root has no basename or that basename is not a segment of the
/// (normalized) input path.
pub open spec fn map_spec(local_root: Seq<char>, remote_root: Seq<char>, p: Seq<char>) -> Option<
    Seq<char>,
> {
    if p.len() == 0 {
        Some(Seq::empty())
    } else {
        match basename_of(local_root) {
            None => None,
            Some(base) => {
                let s = norm_seps(p);
                match rightmost_seg(s, base, s.len() - base.len()) {
                    None => None,
                    Some(i) => Some(
                        join_spec(norm_seps(remote_root), seg_tail(s, i, base.len() as int)),
                    ),
                }
            },
        }
    }
}

/// Joins `b` under `a` as `join_spec` describes.
pub fn join_path(a: &str, b: &str) -> (r: String)
    ensures
        r@ == join_spec(a@, b@),
{
    let b_len = b.unicode_len();
    let mut out = a.to_owned();
    if b_len == 0 {
        return out;
    }
    let a_len = a.unicode_len();
    if a_len > 0 {
        let c = a.get_char(a_len - 1);
        if c == '/' || c == '\\' {
            out.append(b);
            return out;
        }
    }
    push_char(&mut out, '/');
    out.append(b);
    proof {
        assert(out@ =~= a@ + seq!['/'] + b@);
    }
    out
}

/// Whether `base` stands as a whole path segment of `s` at position `i`.
fn seg_at_exec(s: &str, s_len: usize, base: &str, b_len: usize, i: usize) -> (r: bool)
    requires
        s_len == s@.len(),
        b_len == base@.len(),
        i + b_len <= s_len,
    ensures
        r == is_seg_at(s@, base@, i as int),
{
    if !match_at(s, s_len, base, b_len, i) {
        return false;
    }
    if i > 0 && s.get_char(i - 1) != '/' {
        return false;
    }
    if i + b_len < s_len && s.get_char(i + b_len) != '/' {
        return false;
    }
    true
}

/// Maps a local absolute path onto the remote mirror tree.
///
/// The rightmost occurrence of `local_root`'s basename as a whole
/// segment of `local_abs_path` marks the mirrored leaf directory;
/// everything after it is joined under `remote_root`. Separators in the
/// result are forward slashes. An empty input path maps to an empty
/// output path. Fails exactly when `local_root` has no basename or when
/// that basename is not a segment of the input.
pub fn map_to_remote(local_root: &str, remote_root: &str, local_abs_path: &str) -> (r: Result<
    String,
    PathMappingError,
>)
    ensures
        match r {
            Ok(out) => map_spec(local_root@, remote_root@, local_abs_path@) == Some(out@),
            Err(e) => {
                &&& map_spec(local_root@, remote_root@, local_abs_path@) is None
                &&& local_abs_path@.len() > 0
                &&& (e == PathMappingError::NoRootBasename <==> basename_of(local_root@) is None)
            },
        },
{
    let p_len = local_abs_path.unicode_len();
    if p_len == 0 {
        return Ok(String::new());
    }
    let base = match get_basename(local_root) {
        Ok(b) => b,
        Err(_) => {
            return Err(PathMappingError::NoRootBasename);
        },
    };
    let s = normalize_separators(local_abs_path);
    let s_len = s.as_str().unicode_len();
    let b_len = base.as_str().unicode_len();
    if b_len > s_len {
        return Err(PathMappingError::BasenameNotInPath);
    }
    let mut k: usize = s_len - b_len;
    loop
        invariant
            local_abs_path@.len() > 0,
            s@ == norm_seps(local_abs_path@),
            basename_of(local_root@) == Some(base@),
            s_len == s@.len(),
            b_len == base@.len(),
            b_len <= s_len,
            0 <= k <= s_len - b_len,
            rightmost_seg(s@, base@, s_len - b_len) == rightmost_seg(s@, base@, k as int),
        decreases k,
    {
        if seg_at_exec(s.as_str(), s_len, base.as_str(), b_len, k) {
            assert(rightmost_seg(s@, base@, k as int) == Some(k as int));
            let tail = if k + b_len == s_len {
                String::new()
            } else {
                s.as_str().substring_char(k + b_len + 1, s_len).to_owned()
            };
            assert(tail@ == seg_tail(s@, k as int, b_len as int));
            let rr = normalize_separators(remote_root);
            let out = join_path(rr.as_str(), tail.as_str());
            return Ok(out);
        }
        if k == 0 {
            assert(rightmost_seg(s@, base@, -1) is None);
            assert(rightmost_seg(s@, base@, 0) is None);
            return Err(PathMappingError::BasenameNotInPath);
        }
        k -= 1;
    }
}

/// A basename is an actual segment of its path: it stands between
/// separator-or-end boundaries, holds no separator, and is not blank.
pub proof fn lemma_basename_position(s: Seq<char>) -> (r: (int, int))
    requires
        basename_of(s) is Some,
    ensures
        0 <= r.0 <= r.1 <= s.len(),
        basename_of(s) == Some(s.subrange(r.0, r.1)),
        r.0 == 0 || is_sep(s[r.0 - 1]),
        r.1 == s.len() || is_sep(s[r.1]),
        forall|j: int| r.0 <= j < r.1 ==> !is_sep(#[trigger] s[j]),
        !is_blank(s.subrange(r.0, r.1)),
    decreases s.len(),
{
    lemma_last_seg_start(s);
    let k = last_seg_start(s);
    if !is_blank(s.subrange(k, s.len() as int)) {
        (k, s.len() as int)
    } else {
        let pre = s.subrange(0, k - 1);
        let (a, b) = lemma_basename_position(pre);
        assert(pre.subrange(a, b) =~= s.subrange(a, b));
        assert(forall|j: int| a <= j < b ==> pre[j] == #[trigger] s[j]);
        if b == pre.len() {
            assert(is_sep(s[k - 1]));
        }
        (a, b)
    }
}

/// The basename of `root` stands as a whole segment of the normalized
/// join of `root` with any non-empty relative path beneath it.
pub proof fn lemma_base_segment_in_join(root: Seq<char>, rel: Seq<char>, base: Seq<char>)
    requires
        basename_of(root) == Some(base),
        rel.len() > 0,
    ensures
        exists|i: int| is_seg_at(norm_seps(join_spec(root, rel)), base, i),
{
    let (k, m) = lemma_basename_position(root);
    assert(base =~= root.subrange(k, m));
    assert(m > k) by {
        if m == k {
            assert(is_blank(root.subrange(k, m)));
        }
    }
    let j = join_spec(root, rel);
    let s = norm_seps(j);
    // the joined path keeps root as a literal prefix
    assert(forall|x: int| 0 <= x < root.len() ==> #[trigger] j[x] == root[x]);
    assert(j.len() > root.len());
    assert(is_seg_at(s, base, k)) by {
        assert(s.subrange(k, m) =~= base) by {
            assert(forall|x: int|
                k <= x < m ==> #[trigger] s[x] == norm_char(root[x]) && !is_sep(root[x]));
        }
        if k > 0 {
            assert(s[k - 1] == norm_char(root[k - 1]));
            assert(is_sep(root[k - 1]));
        }
        if m == root.len() {
            // the segment touches the end of root, so root does not end
            // in a separator and the join inserted a slash at m
            assert(!is_sep(root.last()));
            assert(j == root + seq!['/'] + rel);
            assert(j[m] == '/');
            assert(s[m] == '/');
        } else {
            assert(is_sep(root[m]));
            assert(s[m] == norm_char(root[m]));
        }
    }
}

/// The string with its trailing separators removed.
pub open spec fn strip_trailing_seps(s: Seq<char>) -> Seq<char>
    decreases s.len(),
{
    if s.len() > 0 && is_sep(s.last()) {
        strip_trailing_seps(s.drop_last())
    } else {
        s
    }
}

/// The root-relative form of `p`: `None` unless `p` equals `root` (the
/// relative form is empty) or lies under it behind a separator. Both
/// sides are compared with separators normalized and trailing
/// separators of the root ignored.
pub open spec fn rel_spec(root: Seq<char>, p: Seq<char>) -> Option<Seq<char>> {
    let r = strip_trailing_seps(norm_seps(root));
    let q = norm_seps(p);
    if q == r {
        Some(Seq::empty())
    } else if q.len() > r.len() && q.take(r.len() as int) == r && q[r.len() as int] == '/' {
        Some(q.subrange(r.len() as int + 1, q.len() as int))
    } else {
        None
    }
}

/// Strips the watched root from an absolute path, yielding the
/// root-relative path that is carried in change events.
pub fn relativize(root: &str, p: &str) -> (r: Option<String>)
    ensures
        match r {
            Some(out) => rel_spec(root@, p@) == Some(out@),
            None => rel_spec(root@, p@) is None,
        },
{
    let rn = normalize_separators(root);
    let rn_len = rn.as_str().unicode_len();
    let mut m: usize = rn_len;
    proof {
        assert(rn@.take(m as int) =~= rn@);
    }
    while m > 0 && rn.as_str().get_char(m - 1) == '/'
        invariant
            rn_len == rn@.len(),
            0 <= m <= rn_len,
            strip_trailing_seps(rn@) == strip_trailing_seps(rn@.take(m as int)),
        decreases m,
    {
        proof {
            let cur = rn@.take(m as int);
            assert(is_sep(cur.last()));
            assert(cur.drop_last() =~= rn@.take(m - 1));
        }
        m -= 1;
    }
    proof {
        let cur = rn@.take(m as int);
        if m > 0 {
            assert(!is_sep(cur.last())) by {
                assert(cur.last() == rn@[m - 1]);
                assert(rn@[m - 1] == norm_char(root@[m - 1]));
            }
        }
        assert(strip_trailing_seps(cur) == cur);
    }
    let rpre = rn.as_str().substring_char(0, m);
    proof {
        assert(rpre@ =~= rn@.take(m as int));
        assert(rpre@ == strip_trailing_seps(norm_seps(root@)));
    }
    let ghost r_spec = rpre@;
    let q = normalize_separators(p);
    let q_len = q.as_str().unicode_len();
    if q_len == m {
        if match_at(q.as_str(), q_len, rpre, m, 0) {
            assert(q@ =~= r_spec);
            return Some(String::new());
        }
        assert(q@ != r_spec) by {
            assert(q@.subrange(0, m as int) =~= q@);
        }
        return None;
    }
    if q_len > m && match_at(q.as_str(), q_len, rpre, m, 0) {
        if q.as_str().get_char(m) == '/' {
            let out = q.as_str().substring_char(m + 1, q_len).to_owned();
            proof {
                assert(q@.take(m as int) =~= q@.subrange(0, m as int));
            }
            return Some(out);
        }
    }
    proof {
        if q@.len() > r_spec.len() && q@.take(m as int) == r_spec && q@[m as int] == '/' {
            assert(q@.subrange(0, m as int) =~= q@.take(m as int));
        }
    }
    None
}

/// The directory part of a forward-slash path: everything before the
/// last slash, or empty when the path holds no slash.
pub open spec fn parent_spec(s: Seq<char>) -> Seq<char>
    decreases s.len(),
{
    if s.len() == 0 {
        Seq::empty()
    } else if s.last() == '/' {
        s.drop_last()
    } else {
        parent_spec(s.drop_last())
    }
}

/// The directory part of a forward-slash remote path.
pub fn parent_dir(s: &str) -> (r: String)
    ensures
        r@ == parent_spec(s@),
{
    let n = s.unicode_len();
    let mut m: usize = n;
    proof {
        assert(s@.take(n as int) =~= s@);
    }
    while m > 0 && s.get_char(m - 1) != '/'
        invariant
            n == s@.len(),
            0 <= m <= n,
            parent_spec(s@) == parent_spec(s@.take(m as int)),
        decreases m,
    {
        proof {
            let cur = s@.take(m as int);
            assert(cur.last() != '/');
            assert(cur.drop_last() =~= s@.take(m - 1));
        }
        m -= 1;
    }
    if m == 0 {
        assert(s@.take(0) =~= Seq::<char>::empty());
        return String::new();
    }
    proof {
        let cur = s@.take(m as int);
        assert(cur.last() == '/');
        assert(cur.drop_last() =~= s@.take(m - 1));
    }
    s.substring_char(0, m - 1).to_owned()
}

} // verus!
