//! Path strings.
//!
//! Paths are strings whose components are separated by `/` or `\`, as `std::path`
//! reads them on Windows. A path may start with a prefix: a drive such as `C:`, or
//! two separators as in `\\server\share`. It is absolute when it has a prefix and
//! a root (`C:\x`, `\\server\share`); a path that starts with a separator alone
//! is rooted but not absolute. When the library joins two paths it writes `/`,
//! which Windows accepts as well. The functions here follow `std::path` for paths
//! without empty, `.` or trailing components.
use vstd::prelude::*;
use crate::text::{chars_of, concat2, concat3, copy_str, push_char, string_from_chars};

verus! {

/// `c` separates path components.
pub open spec fn is_sep(c: char) -> bool {
    c == '/' || c == '\\'
}

fn is_sep_char(c: char) -> (b: bool)
    ensures
        b == is_sep(c),
{
    c == '/' || c == '\\'
}

/// `p` starts with a drive prefix such as `C:`.
pub open spec fn has_drive(p: Seq<char>) -> bool {
    p.len() >= 2 && p[1] == ':' && (('a' <= p[0] && p[0] <= 'z') || ('A' <= p[0] && p[0] <= 'Z'))
}

fn has_drive_chars(v: &Vec<char>) -> (b: bool)
    ensures
        b == has_drive(v@),
{
    v.len() >= 2 && v[1] == ':' && (('a' <= v[0] && v[0] <= 'z') || ('A' <= v[0] && v[0] <= 'Z'))
}

/// `p` starts with two separators, as a network path `\\server\share` does.
pub open spec fn is_unc(p: Seq<char>) -> bool {
    p.len() > 2 && is_sep(p[0]) && is_sep(p[1])
}

/// `p` starts with a prefix: a drive or a network path.
pub open spec fn has_path_prefix(p: Seq<char>) -> bool {
    has_drive(p) || is_unc(p)
}

/// `p` starts with a separator: it is rooted.
pub open spec fn is_rooted(p: Seq<char>) -> bool {
    p.len() > 0 && is_sep(p[0])
}

/// `rel` takes the place of the path it is joined onto, but for a drive kept from
/// it: `rel` has a prefix or a root.
pub open spec fn replaces_base(rel: Seq<char>) -> bool {
    has_path_prefix(rel) || is_rooted(rel)
}

/// `rel` appended to `base` the way `PathBuf::join` does on Windows, with `/`
/// between them: a prefixed `rel` replaces `base`; a rooted one keeps only the
/// drive of `base`; nothing is put between a bare drive and `rel`.
pub open spec fn path_join(base: Seq<char>, rel: Seq<char>) -> Seq<char> {
    if has_path_prefix(rel) {
        rel
    } else if is_rooted(rel) {
        if has_drive(base) {
            base.subrange(0, 2) + rel
        } else {
            rel
        }
    } else if base.len() == 0 {
        rel
    } else if is_sep(base.last()) || (has_drive(base) && base.len() == 2) {
        base + rel
    } else {
        base + seq!['/'] + rel
    }
}

/// Joins `rel` onto `base`.
pub fn join_path(base: &str, rel: &str) -> (r: String)
    ensures
        r@ == path_join(base@, rel@),
{
    let rv = chars_of(rel);
    let bv = chars_of(base);
    let rooted = rv.len() > 0 && is_sep_char(rv[0]);
    if has_drive_chars(&rv) || (rooted && rv.len() > 2 && is_sep_char(rv[1])) {
        return copy_str(rel);
    }
    if rooted {
        if has_drive_chars(&bv) {
            let drive = string_from_chars(&bv.as_slice()[0..2]);
            return concat2(drive.as_str(), rel);
        }
        return copy_str(rel);
    }
    if bv.len() == 0 {
        return copy_str(rel);
    }
    if is_sep_char(bv[bv.len() - 1]) || (has_drive_chars(&bv) && bv.len() == 2) {
        concat2(base, rel)
    } else {
        let r = concat3(base, "/", rel);
        proof {
            reveal_strlit("/");
        }
        r
    }
}

/// The index of the last occurrence of `c` in `s`, or -1.
pub open spec fn last_index_of(s: Seq<char>, c: char) -> int
    decreases s.len(),
{
    if s.len() == 0 {
        -1
    } else if s.last() == c {
        s.len() - 1
    } else {
        last_index_of(s.drop_last(), c)
    }
}

/// `last_index_of` is the position of the last occurrence of `c`, or -1 when `c`
/// does not occur.
pub proof fn lemma_last_index_of(s: Seq<char>, c: char)
    ensures
        -1 <= last_index_of(s, c) < s.len(),
        last_index_of(s, c) >= 0 ==> s[last_index_of(s, c)] == c,
        forall|j: int| last_index_of(s, c) < j < s.len() ==> s[j] != c,
    decreases s.len(),
{
    if s.len() > 0 && s.last() != c {
        lemma_last_index_of(s.drop_last(), c);
        assert forall|j: int| last_index_of(s, c) < j < s.len() implies s[j] != c by {
            if j < s.len() - 1 {
                assert(s.drop_last()[j] == s[j]);
            }
        }
    }
}

/// The index of the last separator in `s`, or -1.
pub open spec fn last_sep_index(s: Seq<char>) -> int
    decreases s.len(),
{
    if s.len() == 0 {
        -1
    } else if is_sep(s.last()) {
        s.len() - 1
    } else {
        last_sep_index(s.drop_last())
    }
}

/// `last_sep_index` is the position of the last separator, or -1 when there is
/// none.
pub proof fn lemma_last_sep_index(s: Seq<char>)
    ensures
        -1 <= last_sep_index(s) < s.len(),
        last_sep_index(s) >= 0 ==> is_sep(s[last_sep_index(s)]),
        forall|j: int| last_sep_index(s) < j < s.len() ==> !is_sep(s[j]),
    decreases s.len(),
{
    if s.len() > 0 && !is_sep(s.last()) {
        lemma_last_sep_index(s.drop_last());
        assert forall|j: int| last_sep_index(s) < j < s.len() implies !is_sep(s[j]) by {
            if j < s.len() - 1 {
                assert(s.drop_last()[j] == s[j]);
            }
        }
    }
}

/// The last separator of `s` is the one at `j`.
pub proof fn lemma_last_sep_at(s: Seq<char>, j: int)
    requires
        0 <= j < s.len(),
        is_sep(s[j]),
        forall|k: int| j < k < s.len() ==> !is_sep(#[trigger] s[k]),
    ensures
        last_sep_index(s) == j,
{
    lemma_last_sep_index(s);
}

/// A path without separators has no last separator.
pub proof fn lemma_no_sep(s: Seq<char>)
    requires
        forall|k: int| 0 <= k < s.len() ==> !is_sep(#[trigger] s[k]),
    ensures
        last_sep_index(s) == -1,
{
    lemma_last_sep_index(s);
    if last_sep_index(s) >= 0 {
        assert(is_sep(s[last_sep_index(s)]));
    }
}

/// The last `c` of `s` is the one at `j`.
pub proof fn lemma_last_index_at(s: Seq<char>, c: char, j: int)
    requires
        0 <= j < s.len(),
        s[j] == c,
        forall|k: int| j < k < s.len() ==> #[trigger] s[k] != c,
    ensures
        last_index_of(s, c) == j,
{
    lemma_last_index_of(s, c);
}

/// The index of the last separator in `v`, or `None`.
fn find_last_sep(v: &Vec<char>) -> (r: Option<usize>)
    ensures
        match r {
            Some(k) => k as int == last_sep_index(v@),
            None => last_sep_index(v@) == -1,
        },
{
    let mut k: usize = v.len();
    assert(v@.subrange(0, k as int) =~= v@);
    while k > 0
        invariant
            k <= v.len(),
            last_sep_index(v@) == last_sep_index(v@.subrange(0, k as int)),
        decreases k,
    {
        assert(v@.subrange(0, k as int).last() == v@[k - 1]);
        if is_sep_char(v[k - 1]) {
            return Some(k - 1);
        }
        assert(v@.subrange(0, k as int).drop_last() =~= v@.subrange(0, k - 1));
        k -= 1;
    }
    assert(v@.subrange(0, 0) =~= Seq::<char>::empty());
    None
}

/// The index of the last `c` in `v`, or `None`.
pub fn find_last(v: &Vec<char>, c: char) -> (r: Option<usize>)
    ensures
        match r {
            Some(k) => k as int == last_index_of(v@, c),
            None => last_index_of(v@, c) == -1,
        },
{
    let mut k: usize = v.len();
    assert(v@.subrange(0, k as int) =~= v@);
    while k > 0
        invariant
            k <= v.len(),
            last_index_of(v@, c) == last_index_of(v@.subrange(0, k as int), c),
        decreases k,
    {
        assert(v@.subrange(0, k as int).last() == v@[k - 1]);
        if v[k - 1] == c {
            return Some(k - 1);
        }
        assert(v@.subrange(0, k as int).drop_last() =~= v@.subrange(0, k - 1));
        k -= 1;
    }
    assert(v@.subrange(0, 0) =~= Seq::<char>::empty());
    None
}

/// The last component of a path, as `Path::file_name`.
pub open spec fn file_name_spec(p: Seq<char>) -> Option<Seq<char>> {
    let tail = p.subrange(last_sep_index(p) + 1, p.len() as int);
    if tail.len() == 0 || tail == seq!['.', '.'] {
        None
    } else {
        Some(tail)
    }
}

/// The path without its last component, as `Path::parent`: a root (`/`, or a
/// drive prefix with its separator) has none, and the parent of a component just
/// below a root is that root.
pub open spec fn parent_spec(p: Seq<char>) -> Option<Seq<char>> {
    let k = last_sep_index(p);
    let root = if has_drive(p) && p.len() >= 3 && is_sep(p[2]) { 3int } else if p.len() > 0 && is_sep(p[0]) { 1int } else { 0int };
    if p.len() == 0 {
        None
    } else if k < 0 {
        if has_drive(p) && p.len() == 2 {
            None
        } else {
            Some(Seq::<char>::empty())
        }
    } else if k < root {
        if p.len() == root {
            None
        } else {
            Some(p.subrange(0, root))
        }
    } else {
        Some(p.subrange(0, k))
    }
}

/// The part of a file name before its final dot, as `Path::file_stem`.
pub open spec fn stem_of(f: Seq<char>) -> Seq<char> {
    let k = last_index_of(f, '.');
    if k <= 0 {
        f
    } else {
        f.subrange(0, k)
    }
}

/// The part of a file name after its final dot, as `Path::extension`.
pub open spec fn extension_of(f: Seq<char>) -> Option<Seq<char>> {
    let k = last_index_of(f, '.');
    if k <= 0 {
        None
    } else {
        Some(f.subrange(k + 1, f.len() as int))
    }
}

/// The file stem of a path.
pub open spec fn file_stem_spec(p: Seq<char>) -> Option<Seq<char>> {
    match file_name_spec(p) {
        Some(f) => Some(stem_of(f)),
        None => None,
    }
}

/// The extension of a path.
pub open spec fn extension_spec(p: Seq<char>) -> Option<Seq<char>> {
    match file_name_spec(p) {
        Some(f) => extension_of(f),
        None => None,
    }
}

/// The last component of `p`.
pub fn file_name(p: &str) -> (r: Option<String>)
    ensures
        match r {
            Some(s) => file_name_spec(p@) == Some(s@),
            None => file_name_spec(p@) is None,
        },
{
    let v = chars_of(p);
    proof {
        lemma_last_sep_index(v@);
    }
    let start: usize = match find_last_sep(&v) {
        Some(k) => {
            assert(k < v.len());
            k + 1
        },
        None => 0,
    };
    let tail = &v.as_slice()[start..v.len()];
    if tail.len() == 0 {
        return None;
    }
    if tail.len() == 2 && tail[0] == '.' && tail[1] == '.' {
        assert(tail@ =~= seq!['.', '.']);
        return None;
    }
    assert(tail@ != seq!['.', '.']);
    Some(string_from_chars(tail))
}

/// The parent of `p`.
pub fn parent(p: &str) -> (r: Option<String>)
    ensures
        match r {
            Some(s) => parent_spec(p@) == Some(s@),
            None => parent_spec(p@) is None,
        },
{
    let v = chars_of(p);
    if v.len() == 0 {
        return None;
    }
    proof {
        lemma_last_sep_index(v@);
    }
    let drive = has_drive_chars(&v);
    let root: usize = if drive && v.len() >= 3 && is_sep_char(v[2]) {
        3
    } else if is_sep_char(v[0]) {
        1
    } else {
        0
    };
    match find_last_sep(&v) {
        None => {
            if drive && v.len() == 2 {
                None
            } else {
                Some(String::new())
            }
        },
        Some(k) => {
            if k < root {
                if v.len() == root {
                    None
                } else {
                    Some(string_from_chars(&v.as_slice()[0..root]))
                }
            } else {
                Some(string_from_chars(&v.as_slice()[0..k]))
            }
        },
    }
}

/// The stem and extension of the file name `f`.
pub fn split_extension(f: &str) -> (r: (String, Option<String>))
    ensures
        r.0@ == stem_of(f@),
        match r.1 {
            Some(e) => extension_of(f@) == Some(e@),
            None => extension_of(f@) is None,
        },
{
    let v = chars_of(f);
    proof {
        lemma_last_index_of(v@, '.');
    }
    match find_last(&v, '.') {
        Some(k) => {
            if k == 0 {
                (copy_str(f), None)
            } else {
                assert(k < v.len());
                (string_from_chars(&v.as_slice()[0..k]), Some(string_from_chars(&v.as_slice()[k + 1..v.len()])))
            }
        },
        None => (copy_str(f), None),
    }
}

/// The file stem of `p`.
pub fn file_stem(p: &str) -> (r: Option<String>)
    ensures
        match r {
            Some(s) => file_stem_spec(p@) == Some(s@),
            None => file_stem_spec(p@) is None,
        },
{
    match file_name(p) {
        Some(f) => Some(split_extension(&f).0),
        None => None,
    }
}

/// The extension of `p`.
pub fn extension(p: &str) -> (r: Option<String>)
    ensures
        match r {
            Some(s) => extension_spec(p@) == Some(s@),
            None => extension_spec(p@) is None,
        },
{
    match file_name(p) {
        Some(f) => split_extension(&f).1,
        None => None,
    }
}

} // verus!

verus! {

/// `p` is an absolute path, as `Path::is_absolute` on Windows: a drive followed by
/// a root, or a network path.
pub open spec fn is_absolute_spec(p: Seq<char>) -> bool {
    (has_drive(p) && p.len() >= 3 && is_sep(p[2])) || is_unc(p)
}

/// A `..` component starts at index `i` of `p`.
pub open spec fn parent_dir_at(p: Seq<char>, i: int) -> bool {
    0 <= i && i + 2 <= p.len() && p[i] == '.' && p[i + 1] == '.' && (i == 0 || is_sep(p[i - 1]))
        && (i + 2 == p.len() || is_sep(p[i + 2]))
}

/// Some component of `p` is `..`.
pub open spec fn has_parent_dir(p: Seq<char>) -> bool {
    exists|i: int| #[trigger] parent_dir_at(p, i)
}

/// Whether `p` is absolute.
pub fn is_absolute(p: &str) -> (b: bool)
    ensures
        b == is_absolute_spec(p@),
{
    let v = chars_of(p);
    (has_drive_chars(&v) && v.len() >= 3 && is_sep_char(v[2])) || (v.len() > 2 && is_sep_char(v[0]) && is_sep_char(
        v[1],
    ))
}

/// Whether some component of `p` is `..`.
pub fn has_parent_dir_component(p: &str) -> (b: bool)
    ensures
        b == has_parent_dir(p@),
{
    let v = chars_of(p);
    let n = v.len();
    if n < 2 {
        assert(forall|i: int| !#[trigger] parent_dir_at(p@, i));
        return false;
    }
    let mut i: usize = 0;
    while i < n - 1
        invariant
            v@ == p@,
            n == v.len(),
            n >= 2,
            i + 1 <= n,
            forall|j: int| 0 <= j < i ==> !#[trigger] parent_dir_at(p@, j),
        decreases n - i,
    {
        if v[i] == '.' && v[i + 1] == '.' && (i == 0 || is_sep_char(v[i - 1])) && (i + 2 == n || is_sep_char(v[i + 2])) {
            assert(parent_dir_at(p@, i as int));
            return true;
        }
        i += 1;
    }
    assert forall|j: int| !#[trigger] parent_dir_at(p@, j) by {
        if 0 <= j && j >= i {
            assert(j + 2 > n);
        }
    }
    false
}

/// `p` with every backslash replaced by `/`.
pub open spec fn forward_slashes(p: Seq<char>) -> Seq<char> {
    p.map_values(|c: char| if c == '\\' { '/' } else { c })
}

/// Replaces every backslash in `p` by `/`.
pub fn to_forward_slashes(p: &str) -> (r: String)
    ensures
        r@ == forward_slashes(p@),
{
    let v = chars_of(p);
    let mut r = String::new();
    let mut i: usize = 0;
    while i < v.len()
        invariant
            v@ == p@,
            i <= v.len(),
            r@ == forward_slashes(p@.take(i as int)),
        decreases v.len() - i,
    {
        let c = if v[i] == '\\' { '/' } else { v[i] };
        push_char(&mut r, c);
        i += 1;
        assert(r@ =~= forward_slashes(p@.take(i as int)));
    }
    assert(p@.take(v.len() as int) =~= p@);
    r
}

/// `p` lies at or below `base`, comparing whole components (as `Path::starts_with`
/// on paths without empty components).
pub open spec fn within_spec(p: Seq<char>, base: Seq<char>) -> bool {
    p == base || (base.len() > 0 && base.len() < p.len() && p.subrange(0, base.len() as int) == base
        && (is_sep(base.last()) || is_sep(p[base.len() as int])))
}

/// What remains of `p` after the leading `base`, when `p` lies within `base`.
pub open spec fn strip_base_spec(p: Seq<char>, base: Seq<char>) -> Option<Seq<char>> {
    if p == base {
        Some(Seq::<char>::empty())
    } else if within_spec(p, base) {
        if is_sep(base.last()) {
            Some(p.subrange(base.len() as int, p.len() as int))
        } else {
            Some(p.subrange(base.len() as int + 1, p.len() as int))
        }
    } else {
        None
    }
}

/// Whether `p` lies at or below `base`.
pub fn path_within(p: &str, base: &str) -> (b: bool)
    ensures
        b == within_spec(p@, base@),
{
    let pv = chars_of(p);
    let bv = chars_of(base);
    if pv.len() == bv.len() {
        let mut i: usize = 0;
        while i < pv.len()
            invariant
                pv@ == p@,
                bv@ == base@,
                pv.len() == bv.len(),
                i <= pv.len(),
                forall|j: int| 0 <= j < i ==> pv@[j] == bv@[j],
            decreases pv.len() - i,
        {
            if pv[i] != bv[i] {
                return false;
            }
            i += 1;
        }
        assert(p@ =~= base@);
        return true;
    }
    if bv.len() == 0 || bv.len() > pv.len() {
        return false;
    }
    let mut i: usize = 0;
    while i < bv.len()
        invariant
            pv@ == p@,
            bv@ == base@,
            bv.len() < pv.len(),
            i <= bv.len(),
            forall|j: int| 0 <= j < i ==> pv@[j] == bv@[j],
        decreases bv.len() - i,
    {
        if pv[i] != bv[i] {
            assert(p@.subrange(0, bv.len() as int)[i as int] != base@[i as int]);
            return false;
        }
        i += 1;
    }
    assert(p@.subrange(0, bv.len() as int) =~= base@);
    is_sep_char(bv[bv.len() - 1]) || is_sep_char(pv[bv.len()])
}

/// `p` relative to `base`, as `Path::strip_prefix`.
pub fn strip_base(p: &str, base: &str) -> (r: Option<String>)
    ensures
        match r {
            Some(s) => strip_base_spec(p@, base@) == Some(s@),
            None => strip_base_spec(p@, base@) is None,
        },
{
    if !path_within(p, base) {
        return None;
    }
    let pv = chars_of(p);
    let bv = chars_of(base);
    if pv.len() == bv.len() {
        return Some(String::new());
    }
    if is_sep_char(bv[bv.len() - 1]) {
        Some(string_from_chars(&pv.as_slice()[bv.len()..pv.len()]))
    } else {
        Some(string_from_chars(&pv.as_slice()[bv.len() + 1..pv.len()]))
    }
}

} // verus!

verus! {

/// A relative path joined onto a folder is found again below that folder.
pub proof fn joined_path_strips_back(base: Seq<char>, rel: Seq<char>)
    requires
        base.len() > 0,
        !(has_drive(base) && base.len() == 2),
        !replaces_base(rel),
    ensures
        within_spec(path_join(base, rel), base),
        strip_base_spec(path_join(base, rel), base) == Some(rel),
{
    let p = path_join(base, rel);
    if is_sep(base.last()) {
        assert(p == base + rel);
        assert(p.subrange(0, base.len() as int) =~= base);
        if rel.len() == 0 {
            assert(p =~= base);
        } else {
            assert(p.subrange(base.len() as int, p.len() as int) =~= rel);
        }
    } else {
        assert(p == base + seq!['/'] + rel);
        assert(p.subrange(0, base.len() as int) =~= base);
        assert(p[base.len() as int] == '/');
        assert(p.subrange(base.len() as int + 1, p.len() as int) =~= rel);
        assert(p.len() > base.len());
    }
}

} // verus!
