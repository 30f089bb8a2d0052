//! Normalizing a path's extension to `.json`.
//!
//! Paths are plain strings of characters with `/` as the separator.  The
//! file name is everything after the last `/`.  A name has an extension
//! when it contains a `.` anywhere past its first character; the extension
//! is what follows the last such `.`.  Forcing the extension cuts the name
//! at that dot (or appends when there is no extension) and attaches
//! `.json`.  A path with an empty file name, or whose file name is `.` or
//! `..`, has no stem to attach an extension to and is returned unchanged.

use vstd::prelude::*;

verus! {

/// Index where the file name begins: just past the last `/`, or `0` when
/// the path contains no `/`.
pub open spec fn spec_name_start(p: Seq<char>) -> int
    decreases p.len(),
{
    if p.len() == 0 {
        0
    } else if p[p.len() - 1] == '/' {
        p.len() as int
    } else {
        spec_name_start(p.drop_last())
    }
}

/// Index of the last `.` within `[lo, j)`, or `-1` when there is none.
pub open spec fn spec_last_dot(p: Seq<char>, lo: int, j: int) -> int
    decreases j - lo,
{
    if j <= lo {
        -1
    } else if p[j - 1] == '.' {
        j - 1
    } else {
        spec_last_dot(p, lo, j - 1)
    }
}

/// The characters of the suffix `.json`.
pub open spec fn json_suffix() -> Seq<char> {
    seq!['.', 'j', 's', 'o', 'n']
}

/// The path with its extension forced to `.json`.
pub open spec fn spec_with_json_ext(p: Seq<char>) -> Seq<char> {
    let ns = spec_name_start(p);
    let name = p.subrange(ns, p.len() as int);
    if name.len() == 0 || name == seq!['.'] || name == seq!['.', '.'] {
        p
    } else {
        let d = spec_last_dot(p, ns + 1, p.len() as int);
        if d >= 0 {
            p.take(d) + json_suffix()
        } else {
            p + json_suffix()
        }
    }
}

/// Basic facts about where the file name starts: it is a position in the
/// path, nothing at or after it is a `/`, and the character just before it
/// (if any) is a `/`.
pub proof fn lemma_name_start_props(p: Seq<char>)
    ensures
        0 <= spec_name_start(p) <= p.len(),
        forall|i: int| spec_name_start(p) <= i < p.len() ==> p[i] != '/',
        spec_name_start(p) > 0 ==> p[spec_name_start(p) - 1] == '/',
    decreases p.len(),
{
    if p.len() == 0 {
    } else if p[p.len() - 1] == '/' {
    } else {
        lemma_name_start_props(p.drop_last());
        assert forall|i: int| spec_name_start(p) <= i < p.len() implies p[i] != '/' by {
            if i < p.len() - 1 {
                assert(p.drop_last()[i] == p[i]);
            }
        }
    }
}

proof fn lemma_name_start_extend_no_slash(p: Seq<char>, q: Seq<char>)
    requires
        forall|i: int| 0 <= i < q.len() ==> q[i] != '/',
    ensures
        spec_name_start(p + q) == spec_name_start(p),
    decreases q.len(),
{
    if q.len() == 0 {
        assert(p + q =~= p);
    } else {
        let pq = p + q;
        assert(pq[pq.len() - 1] == q[q.len() - 1]);
        assert(pq.drop_last() =~= p + q.drop_last());
        assert(forall|i: int| 0 <= i < q.drop_last().len() ==> q.drop_last()[i] == q[i]);
        lemma_name_start_extend_no_slash(p, q.drop_last());
    }
}

proof fn lemma_name_start_take(p: Seq<char>, m: int)
    requires
        spec_name_start(p) <= m <= p.len(),
    ensures
        spec_name_start(p.take(m)) == spec_name_start(p),
    decreases m,
{
    let ns = spec_name_start(p);
    lemma_name_start_props(p);
    if m == ns {
        if ns == 0 {
            assert(p.take(0).len() == 0);
        } else {
            assert(p.take(ns)[ns - 1] == p[ns - 1]);
        }
    } else {
        assert(p.take(m)[m - 1] == p[m - 1]);
        assert(p[m - 1] != '/');
        assert(p.take(m).drop_last() =~= p.take(m - 1));
        lemma_name_start_take(p, m - 1);
    }
}

proof fn lemma_last_dot_skip(p: Seq<char>, lo: int, j2: int, j: int)
    requires
        j2 <= j,
        forall|i: int| j2 <= i < j ==> p[i] != '.',
    ensures
        spec_last_dot(p, lo, j) == spec_last_dot(p, lo, j2),
    decreases j - j2,
{
    if j <= lo || j == j2 {
    } else {
        assert(p[j - 1] != '.');
        lemma_last_dot_skip(p, lo, j2, j - 1);
    }
}

proof fn lemma_last_dot_props(p: Seq<char>, lo: int, j: int)
    ensures
        spec_last_dot(p, lo, j) == -1 || (lo <= spec_last_dot(p, lo, j) < j
            && p[spec_last_dot(p, lo, j)] == '.'),
    decreases j - lo,
{
    if j <= lo {
    } else if p[j - 1] == '.' {
    } else {
        lemma_last_dot_props(p, lo, j - 1);
    }
}

proof fn lemma_append_json_normalizes(p: Seq<char>)
    requires
        spec_name_start(p) < p.len(),
    ensures
        spec_with_json_ext(p + json_suffix()) == p + json_suffix(),
{
    let r = p + json_suffix();
    let ns = spec_name_start(p);
    let n = p.len() as int;
    lemma_name_start_props(p);
    assert(json_suffix()[0] == '.' && json_suffix()[1] == 'j' && json_suffix()[2] == 's'
        && json_suffix()[3] == 'o' && json_suffix()[4] == 'n');
    lemma_name_start_extend_no_slash(p, json_suffix());
    assert(spec_name_start(r) == ns);
    let name_r = r.subrange(ns, r.len() as int);
    assert(name_r.len() >= 6);
    assert(name_r != seq!['.'] && name_r != seq!['.', '.'] && name_r.len() != 0) by {
        assert(seq!['.'].len() == 1 && seq!['.', '.'].len() == 2);
    }
    assert forall|i: int| n + 1 <= i < r.len() implies r[i] != '.' by {
        assert(r[i] == json_suffix()[i - n]);
    }
    lemma_last_dot_skip(r, ns + 1, n + 1, r.len() as int);
    assert(r[n] == json_suffix()[0]);
    assert(spec_last_dot(r, ns + 1, n + 1) == n);
    assert(spec_with_json_ext(r) == r.take(n) + json_suffix());
    assert(r.take(n) =~= p);
}

/// Forcing the extension is idempotent: doing it twice lands on the same
/// path as doing it once.
pub proof fn lemma_with_json_ext_idempotent(p: Seq<char>)
    ensures
        spec_with_json_ext(spec_with_json_ext(p)) == spec_with_json_ext(p),
{
    let ns = spec_name_start(p);
    let n = p.len() as int;
    let name = p.subrange(ns, n);
    lemma_name_start_props(p);
    if name.len() == 0 || name == seq!['.'] || name == seq!['.', '.'] {
        // The path is left unchanged, so a second pass sees the same path.
    } else {
        let d = spec_last_dot(p, ns + 1, n);
        lemma_last_dot_props(p, ns + 1, n);
        if d >= 0 {
            assert(spec_with_json_ext(p) == p.take(d) + json_suffix());
            lemma_name_start_take(p, d);
            assert(spec_name_start(p.take(d)) == ns);
            assert(p.take(d).len() == d > ns);
            lemma_append_json_normalizes(p.take(d));
        } else {
            assert(spec_with_json_ext(p) == p + json_suffix());
            assert(n > ns);
            lemma_append_json_normalizes(p);
        }
    }
}

/// Extension normalization: a path whose file name carries no extension
/// and the same path already suffixed with `.json` are both sent to that
/// `.json`-suffixed path.
pub proof fn lemma_extension_normalization(p: Seq<char>)
    requires
        spec_name_start(p) < p.len(),
        forall|i: int| spec_name_start(p) <= i < p.len() ==> p[i] != '.',
    ensures
        spec_with_json_ext(p) == p + json_suffix(),
        spec_with_json_ext(p + json_suffix()) == p + json_suffix(),
{
    let ns = spec_name_start(p);
    let n = p.len() as int;
    let name = p.subrange(ns, n);
    lemma_name_start_props(p);
    assert(name.len() > 0);
    assert(name[0] == p[ns]);
    assert(name != seq!['.'] && name != seq!['.', '.']) by {
        if name == seq!['.'] {
            assert(name[0] == '.');
        }
        if name == seq!['.', '.'] {
            assert(name[0] == '.');
        }
    }
    lemma_last_dot_skip(p, ns + 1, ns + 1, n);
    assert(spec_last_dot(p, ns + 1, n) == -1);
    lemma_append_json_normalizes(p);
}

/// Where the file name of `path` begins.
fn name_start_index(path: &str) -> (ns: usize)
    ensures
        ns == spec_name_start(path@),
{
    let n = path.unicode_len();
    let mut j = n;
    proof {
        assert(path@.take(n as int) =~= path@);
    }
    while j > 0
        invariant
            j <= n,
            n == path@.len(),
            spec_name_start(path@) == spec_name_start(path@.take(j as int)),
        decreases j,
    {
        let c = path.get_char(j - 1);
        proof {
            assert(path@.take(j as int).len() == j);
            assert(path@.take(j as int)[j - 1] == path@[j - 1]);
        }
        if c == '/' {
            proof {
                assert(spec_name_start(path@.take(j as int)) == j);
            }
            return j;
        }
        proof {
            assert(path@.take(j as int).drop_last() =~= path@.take(j - 1));
        }
        j = j - 1;
    }
    proof {
        assert(path@.take(0).len() == 0);
    }
    0
}

/// Index of the last `.` in `path` at a position in `[lo, n)`, if any.
fn last_dot_index(path: &str, lo: usize, n: usize) -> (d: Option<usize>)
    requires
        n == path@.len(),
    ensures
        match d {
            Some(i) => lo <= i < n && i == spec_last_dot(path@, lo as int, n as int),
            None => spec_last_dot(path@, lo as int, n as int) == -1,
        },
{
    let mut j = n;
    while j > lo
        invariant
            n == path@.len(),
            j <= n,
            spec_last_dot(path@, lo as int, n as int) == spec_last_dot(
                path@,
                lo as int,
                j as int,
            ),
        decreases j,
    {
        let c = path.get_char(j - 1);
        if c == '.' {
            return Some(j - 1);
        }
        j = j - 1;
    }
    None
}

/// The path with its extension forced to `.json`, exactly as
/// [`spec_with_json_ext`] describes.
pub fn with_json_extension(path: &str) -> (r: String)
    ensures
        r@ == spec_with_json_ext(path@),
{
    let n = path.unicode_len();
    let ns = name_start_index(path);
    proof {
        lemma_name_start_props(path@);
    }
    let ghost name = path@.subrange(ns as int, n as int);
    if n == ns {
        proof {
            assert(name.len() == 0);
        }
        return path.to_owned();
    }
    // A file name of `.` or `..` stays untouched.
    if n - ns <= 2 && path.get_char(ns) == '.' {
        if n - ns == 1 {
            proof {
                assert(name =~= seq!['.']);
            }
            return path.to_owned();
        }
        if path.get_char(ns + 1) == '.' {
            proof {
                assert(name =~= seq!['.', '.']);
            }
            return path.to_owned();
        }
    }
    proof {
        assert(name.len() > 0);
        assert(name[0] == path@[ns as int]);
        assert(name != seq!['.'] && name != seq!['.', '.']) by {
            if name == seq!['.'] {
                assert(name[0] == '.');
            }
            if name == seq!['.', '.'] {
                assert(name[0] == '.');
            }
        }
    }
    match last_dot_index(path, ns + 1, n) {
        Some(d) => {
            let stem = path.substring_char(0, d);
            let mut r = stem.to_owned();
            r.append(".json");
            proof {
                reveal_strlit(".json");
                assert(".json"@ =~= json_suffix());
                assert(path@.subrange(0, d as int) =~= path@.take(d as int));
            }
            r
        },
        None => {
            let mut r = path.to_owned();
            r.append(".json");
            proof {
                reveal_strlit(".json");
                assert(".json"@ =~= json_suffix());
            }
            r
        },
    }
}

} // verus!
