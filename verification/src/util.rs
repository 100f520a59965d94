//! Paths as text. A path is a string of segments separated by `/`; a leading
//! `/` makes it absolute. Everything here is lexical: nothing looks at a disk.

use crate::text::{chars, slice, string};
use vstd::prelude::*;
use vstd::string::*;

verus! {

/// A path that starts at the root.
pub open spec fn absolute(p: Seq<char>) -> bool {
    p.len() > 0 && p[0] == '/'
}

/// `rel` taken from `base`: an absolute `rel` stands for itself, any other is
/// appended, with one separator between the two unless `base` is empty or
/// already ends in one.
pub open spec fn joined(base: Seq<char>, rel: Seq<char>) -> Seq<char> {
    if absolute(rel) {
        rel
    } else if base.len() == 0 || base.last() == '/' {
        base + rel
    } else {
        base.push('/') + rel
    }
}

/// A path ends in something that names nothing: a separator, or a `.` right
/// behind a separator.
pub open spec fn trails(p: Seq<char>) -> bool {
    p.len() > 1 && (p.last() == '/' || (p.last() == '.' && p[p.len() - 2] == '/'))
}

/// The length of `p` without what trails it: separators, and `.` segments
/// behind a separator. The first character is always kept, so the root stays
/// the root.
pub open spec fn trimmed(p: Seq<char>) -> nat
    decreases p.len(),
{
    if trails(p) {
        trimmed(p.drop_last())
    } else {
        p.len()
    }
}

/// The index of the last separator in `p`, or -1 where it has none.
pub open spec fn last_slash(p: Seq<char>) -> int
    decreases p.len(),
{
    if p.len() == 0 {
        -1
    } else if p.last() == '/' {
        p.len() - 1
    } else {
        last_slash(p.drop_last())
    }
}

/// The index of the first separator in `p`, or its length where it has none.
pub open spec fn first_slash(p: Seq<char>) -> nat
    decreases p.len(),
{
    if p.len() == 0 || p[0] == '/' {
        0
    } else {
        1 + first_slash(p.skip(1))
    }
}

/// How much of `p` is its parent: `p` without its last segment and what
/// trails before and behind it. A `.` in the middle or at the end of a path
/// is no segment; at the start of a relative path it is. The root and the
/// empty path have no parent.
pub open spec fn parent_len(p: Seq<char>) -> Option<nat> {
    let t = p.take(trimmed(p) as int);
    if t.len() == 0 || t =~= seq!['/'] {
        None
    } else {
        let k = last_slash(t);
        if k < 0 {
            Some(0)
        } else if k == 0 {
            Some(1)
        } else {
            Some(trimmed(t.take(k)))
        }
    }
}

/// The directory that holds `p`, as a prefix of `p`.
pub open spec fn parent_of(p: Seq<char>) -> Option<Seq<char>> {
    match parent_len(p) {
        Some(n) => Some(p.take(n as int)),
        None => None,
    }
}

/// `p` with its last segment taken off; a path without a parent is kept.
pub open spec fn popped(p: Seq<char>) -> Seq<char> {
    match parent_len(p) {
        Some(n) => p.take(n as int),
        None => p,
    }
}

/// One segment of a relative path applied to the directory `dir`: an empty
/// segment and `.` stay there, `..` goes up, a name goes down.
pub open spec fn entered(dir: Seq<char>, seg: Seq<char>) -> Seq<char> {
    if seg.len() == 0 || seg =~= seq!['.'] {
        dir
    } else if seg =~= seq!['.', '.'] {
        popped(dir)
    } else {
        joined(dir, seg)
    }
}

/// The segments of `rest` applied to `dir` one after the other, from the left.
pub open spec fn followed(dir: Seq<char>, rest: Seq<char>) -> Seq<char>
    decreases rest.len(),
{
    let k = first_slash(rest);
    let next = entered(dir, rest.take(k as int));
    if k >= rest.len() {
        next
    } else {
        followed(next, rest.skip(k as int + 1))
    }
}

/// Where `path` leads from the directory `base`: an absolute `path` leads to
/// itself, a relative one is followed segment by segment.
pub open spec fn resolved(base: Seq<char>, path: Seq<char>) -> Seq<char> {
    if absolute(path) {
        path
    } else {
        followed(base, path)
    }
}

/// The index of the `n`-th separator of `p` counted from its end (`n >= 1`),
/// or -1 where `p` has fewer.
pub open spec fn nth_last_slash(p: Seq<char>, n: nat) -> int
    decreases n,
{
    let k = last_slash(p);
    if n <= 1 || k < 0 {
        k
    } else {
        nth_last_slash(p.take(k), (n - 1) as nat)
    }
}

/// The last `n` segments of `p`, where it has a separator in front of them.
pub open spec fn tail_of(p: Seq<char>, n: nat) -> Option<Seq<char>> {
    if n >= 1 && nth_last_slash(p, n) >= 0 {
        Some(p.skip(nth_last_slash(p, n) + 1))
    } else {
        None
    }
}

/// `p` without its last `n` segments, where it has that many separators.
pub open spec fn head_of(p: Seq<char>, n: nat) -> Option<Seq<char>> {
    if n == 0 {
        Some(p)
    } else if nth_last_slash(p, n) >= 0 {
        Some(p.take(nth_last_slash(p, n)))
    } else {
        None
    }
}

proof fn lemma_first_slash(s: Seq<char>, k: int)
    requires
        0 <= k <= s.len(),
        forall|j: int| 0 <= j < k ==> s[j] != '/',
        k == s.len() || s[k] == '/',
    ensures
        first_slash(s) == k,
    decreases k,
{
    if k > 0 {
        lemma_first_slash(s.skip(1), k - 1);
    }
}

fn trimmed_len(v: &Vec<char>, n: usize) -> (r: usize)
    requires
        n <= v.len(),
    ensures
        r == trimmed(v@.take(n as int)),
        r <= n,
{
    let mut k: usize = n;
    while k > 1 && (v[k - 1] == '/' || (v[k - 1] == '.' && v[k - 2] == '/'))
        invariant
            k <= n <= v.len(),
            trimmed(v@.take(n as int)) == trimmed(v@.take(k as int)),
        decreases k,
    {
        assert(trails(v@.take(k as int)));
        assert(v@.take(k as int).drop_last() =~= v@.take(k - 1));
        k = k - 1;
    }
    assert(!trails(v@.take(k as int)));
    k
}

fn last_slash_in(v: &Vec<char>, n: usize) -> (r: Option<usize>)
    requires
        n <= v.len(),
    ensures
        match r {
            Some(i) => last_slash(v@.take(n as int)) == i && i < n && v@[i as int] == '/',
            None => last_slash(v@.take(n as int)) == -1,
        },
{
    let mut k: usize = n;
    while k > 0
        invariant
            k <= n <= v.len(),
            last_slash(v@.take(n as int)) == last_slash(v@.take(k as int)),
        decreases k,
    {
        if v[k - 1] == '/' {
            return Some(k - 1);
        }
        assert(v@.take(k as int).drop_last() =~= v@.take(k - 1));
        k = k - 1;
    }
    None
}

fn parent_len_in(v: &Vec<char>) -> (r: Option<usize>)
    ensures
        match r {
            Some(n) => parent_len(v@) == Some(n as nat) && n <= v.len(),
            None => parent_len(v@) is None,
        },
{
    let t = trimmed_len(v, v.len());
    assert(v@.take(v.len() as int) =~= v@);
    let ghost q = v@.take(t as int);
    if t == 0 || (t == 1 && v[0] == '/') {
        assert(q.len() == 0 || q =~= seq!['/']);
        return None;
    }
    assert(!(q =~= seq!['/'])) by {
        if q.len() == 1 {
            assert(q[0] == v@[0]);
        }
    }
    match last_slash_in(v, t) {
        None => Some(0),
        Some(k) => {
            if k == 0 {
                Some(1)
            } else {
                assert(q.take(k as int) =~= v@.take(k as int));
                Some(trimmed_len(v, k))
            }
        },
    }
}

/// Whether `p` starts at the root.
pub fn is_absolute(p: &str) -> (r: bool)
    ensures
        r == absolute(p@),
{
    !p.is_empty() && p.get_char(0) == '/'
}

/// `rel` taken from `base`, as `joined` says.
pub fn join(base: &str, rel: &str) -> (r: String)
    ensures
        r@ == joined(base@, rel@),
{
    if is_absolute(rel) {
        return rel.to_owned();
    }
    let mut out = chars(base);
    let n = out.len();
    if n > 0 && out[n - 1] != '/' {
        out.push('/');
    }
    let tail = chars(rel);
    let ghost head = out@;
    let mut i: usize = 0;
    while i < tail.len()
        invariant
            i <= tail.len(),
            out@ == head + tail@.take(i as int),
        decreases tail.len() - i,
    {
        out.push(tail[i]);
        assert(tail@.take(i + 1) =~= tail@.take(i as int).push(tail@[i as int]));
        i = i + 1;
    }
    assert(tail@.take(tail.len() as int) =~= tail@);
    string(&out)
}

/// The directory that holds `p`, as a prefix of `p`: what stands before the
/// last segment, without the separators and the `.` segments that trail it.
/// A `.` behind a separator is no segment (`a/.` lies where `a` does, so its
/// parent is the empty path); `..` is a segment like any name, for nothing
/// here looks at a disk. `None` for the root and for the empty path.
pub fn parent(p: &str) -> (r: Option<String>)
    ensures
        match r {
            Some(q) => parent_of(p@) == Some(q@),
            None => parent_of(p@) is None,
        },
{
    let v = chars(p);
    match parent_len_in(&v) {
        Some(n) => Some(slice(&v, 0, n)),
        None => None,
    }
}

/// Where `path` leads from `base`. `base` is meant to be a canonical
/// directory: absolute, without `.`, `..` or doubled separators. An absolute
/// `path` is returned as it is; of a relative one every segment is applied to
/// `base` in turn, `..` climbing no higher than the root.
pub fn rel_canon(base: &str, path: &str) -> (r: String)
    ensures
        r@ == resolved(base@, path@),
{
    let p = chars(path);
    if p.len() > 0 && p[0] == '/' {
        return path.to_owned();
    }
    let mut dir = chars(base);
    let mut i: usize = 0;
    assert(p@.skip(0) =~= p@);
    loop
        invariant_except_break
            p@ == path@,
            i <= p.len(),
            followed(base@, path@) == followed(dir@, p@.skip(i as int)),
        ensures
            dir@ == followed(base@, path@),
        decreases p.len() - i,
    {
        let mut j: usize = i;
        while j < p.len() && p[j] != '/'
            invariant
                i <= j <= p.len(),
                forall|x: int| i <= x < j ==> p@[x] != '/',
            decreases p.len() - j,
        {
            j = j + 1;
        }
        let ghost rest = p@.skip(i as int);
        let ghost seg = rest.take(j - i);
        proof {
            lemma_first_slash(rest, j - i);
            assert(seg =~= p@.subrange(i as int, j as int));
        }
        let ghost before = dir@;
        if j - i == 0 || (j - i == 1 && p[i] == '.') {
            assert(seg.len() == 0 || seg =~= seq!['.']);
        } else if j - i == 2 && p[i] == '.' && p[i + 1] == '.' {
            assert(seg =~= seq!['.', '.']);
            match parent_len_in(&dir) {
                Some(n) => {
                    dir.truncate(n);
                },
                None => {},
            }
        } else {
            assert(!(seg =~= seq!['.'])) by {
                if seg.len() == 1 {
                    assert(seg[0] == p@[i as int]);
                }
            }
            assert(!(seg =~= seq!['.', '.'])) by {
                if seg.len() == 2 {
                    assert(seg[0] == p@[i as int]);
                    assert(seg[1] == p@[i + 1]);
                }
            }
            assert(!absolute(seg)) by {
                if seg.len() > 0 {
                    assert(seg[0] == p@[i as int]);
                }
            }
            let n = dir.len();
            if n > 0 && dir[n - 1] != '/' {
                dir.push('/');
            }
            let ghost stem = dir@;
            let mut k: usize = i;
            while k < j
                invariant
                    i <= k <= j <= p.len(),
                    dir@ == stem + p@.subrange(i as int, k as int),
                decreases j - k,
            {
                dir.push(p[k]);
                assert(p@.subrange(i as int, k + 1) =~= p@.subrange(i as int, k as int).push(
                    p@[k as int],
                ));
                k = k + 1;
            }
        }
        assert(dir@ =~= entered(before, seg));
        if j >= p.len() {
            break;
        }
        assert(rest.skip(j - i + 1) =~= p@.skip(j + 1));
        i = j + 1;
    }
    string(&dir)
}

fn nth_last_slash_in(v: &Vec<char>, n: usize) -> (r: Option<usize>)
    requires
        n >= 1,
    ensures
        match r {
            Some(i) => nth_last_slash(v@, n as nat) == i && i < v.len(),
            None => nth_last_slash(v@, n as nat) < 0,
        },
{
    let mut k: usize = v.len();
    let mut left: usize = n;
    assert(v@.take(k as int) =~= v@);
    loop
        invariant
            k <= v.len(),
            left >= 1,
            nth_last_slash(v@, n as nat) == nth_last_slash(v@.take(k as int), left as nat),
        decreases left,
    {
        match last_slash_in(v, k) {
            None => {
                return None;
            },
            Some(i) => {
                if left == 1 {
                    return Some(i);
                }
                assert(v@.take(k as int).take(i as int) =~= v@.take(i as int));
                k = i;
                left = left - 1;
            },
        }
    }
}

/// The last `n` segments of `path`: what follows the `n`-th separator counted
/// from the end. `None` where `n` is 0 or `path` has fewer separators.
pub fn tail(path: &str, n: usize) -> (r: Option<String>)
    ensures
        match r {
            Some(t) => tail_of(path@, n as nat) == Some(t@),
            None => tail_of(path@, n as nat) is None,
        },
{
    if n == 0 {
        return None;
    }
    let v = chars(path);
    match nth_last_slash_in(&v, n) {
        Some(i) => Some(slice(&v, i + 1, v.len())),
        None => None,
    }
}

/// `path` without its last `n` segments: what stands before the `n`-th
/// separator counted from the end, all of it where `n` is 0. `None` where
/// `path` has fewer separators.
pub fn head(path: &str, n: usize) -> (r: Option<String>)
    ensures
        match r {
            Some(h) => head_of(path@, n as nat) == Some(h@),
            None => head_of(path@, n as nat) is None,
        },
{
    if n == 0 {
        return Some(path.to_owned());
    }
    let v = chars(path);
    match nth_last_slash_in(&v, n) {
        Some(i) => Some(slice(&v, 0, i)),
        None => None,
    }
}

/// The relative path that `pathdiff::diff_paths` gives from `base` to `path`,
/// where it gives one.
pub uninterp spec fn relative_to(path: Seq<char>, base: Seq<char>) -> Option<Seq<char>>;

/// `pathdiff::diff_paths`, on paths given and taken as text. What it returns
/// is a function of the two paths alone and has the name `relative_to`;
/// nothing more is claimed of it.
#[verifier::external_body]
pub(crate) fn diff_paths(path: &str, base: &str) -> (r: Option<String>)
    ensures
        match r {
            Some(p) => relative_to(path@, base@) == Some(p@),
            None => relative_to(path@, base@) is None,
        },
{
    pathdiff::diff_paths(path, base).map(|p| p.to_string_lossy().into_owned())
}

} // verus!
