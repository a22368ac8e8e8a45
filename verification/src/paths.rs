//! Path rules shared by the remote and local directory services: trailing-slash
//! trimming, parent-path computation, child-path joining, final-segment
//! extraction for transfer events, and tilde expansion for local paths.

use vstd::prelude::*;

verus! {

use vstd::string::StrSliceExecFns;
use vstd::string::StringExecFns;

/// `s` with every trailing `'/'` removed.
pub open spec fn trim_trailing_slashes(s: Seq<char>) -> Seq<char>
    decreases s.len(),
{
    if s.len() > 0 && s.last() == '/' {
        trim_trailing_slashes(s.drop_last())
    } else {
        s
    }
}

/// `t` with its final run of non-`'/'` characters removed.
pub open spec fn drop_last_segment(t: Seq<char>) -> Seq<char>
    decreases t.len(),
{
    if t.len() > 0 && t.last() != '/' {
        drop_last_segment(t.drop_last())
    } else {
        t
    }
}

/// The final run of non-`'/'` characters of `t`.
pub open spec fn last_segment(t: Seq<char>) -> Seq<char>
    decreases t.len(),
{
    if t.len() > 0 && t.last() != '/' {
        last_segment(t.drop_last()).push(t.last())
    } else {
        Seq::empty()
    }
}

/// The parent of `s`: strip trailing slashes, then the trailing path segment,
/// then the slashes that separated them.  The root (and a bare run of slashes,
/// and the empty path) has no parent; a parent that degenerates to nothing is
/// the root itself.
pub open spec fn parent_path_of(s: Seq<char>) -> Option<Seq<char>> {
    let t = trim_trailing_slashes(s);
    if t.len() == 0 {
        None
    } else {
        let p = trim_trailing_slashes(drop_last_segment(t));
        if p.len() == 0 {
            Some(seq!['/'])
        } else {
            Some(p)
        }
    }
}

/// A directory path joined with an entry name: the directory without its
/// trailing slashes, one separator, then the name.
pub open spec fn join_child(dir: Seq<char>, name: Seq<char>) -> Seq<char> {
    trim_trailing_slashes(dir) + seq!['/'] + name
}

/// The empty path means the root; every other path stands for itself.
pub open spec fn normalized_path(s: Seq<char>) -> Seq<char> {
    if s.len() == 0 {
        seq!['/']
    } else {
        s
    }
}

/// The filename shown in transfer events: the final path segment, or the whole
/// path when no segment can be extracted.
pub open spec fn event_file_name(s: Seq<char>) -> Seq<char> {
    let seg = last_segment(trim_trailing_slashes(s));
    if seg.len() == 0 {
        s
    } else {
        seg
    }
}

/// Tilde expansion against a home directory: `~` alone (or the empty path)
/// becomes the home directory, `~/rest` becomes the home directory joined with
/// `/rest`, and anything else is untouched.
pub open spec fn tilde_expanded(path: Seq<char>, home: Seq<char>) -> Seq<char> {
    if path.len() == 0 || path == seq!['~'] {
        home
    } else if path.len() >= 2 && path[0] == '~' && path[1] == '/' {
        home + path.skip(1)
    } else {
        path
    }
}

proof fn lemma_trim_take_step(s: Seq<char>, i: int)
    requires
        0 <= i < s.len(),
        s[i] == '/',
    ensures
        trim_trailing_slashes(s.take(i + 1)) == trim_trailing_slashes(s.take(i)),
{
    assert(s.take(i + 1).last() == '/');
    assert(s.take(i + 1).drop_last() =~= s.take(i));
}

proof fn lemma_trim_take_stop(s: Seq<char>, i: int)
    requires
        0 <= i <= s.len(),
        i == 0 || s[i - 1] != '/',
    ensures
        trim_trailing_slashes(s.take(i)) == s.take(i),
{
    if i > 0 {
        assert(s.take(i).last() == s[i - 1]);
    }
}

proof fn lemma_drop_take_step(s: Seq<char>, i: int)
    requires
        0 <= i < s.len(),
        s[i] != '/',
    ensures
        drop_last_segment(s.take(i + 1)) == drop_last_segment(s.take(i)),
{
    assert(s.take(i + 1).last() == s[i]);
    assert(s.take(i + 1).drop_last() =~= s.take(i));
}

proof fn lemma_drop_take_stop(s: Seq<char>, i: int)
    requires
        0 <= i <= s.len(),
        i == 0 || s[i - 1] == '/',
    ensures
        drop_last_segment(s.take(i)) == s.take(i),
{
    if i > 0 {
        assert(s.take(i).last() == s[i - 1]);
    }
}

proof fn lemma_last_segment_skip(t: Seq<char>, k: int)
    requires
        0 <= k <= t.len(),
        forall|j: int| k <= j < t.len() ==> t[j] != '/',
        k == 0 || t[k - 1] == '/',
    ensures
        last_segment(t) == t.skip(k),
    decreases t.len(),
{
    if t.len() == k {
        assert(t.skip(k) =~= Seq::<char>::empty());
        if k > 0 {
            assert(t.last() == t[k - 1]);
        }
    } else {
        assert(t.last() == t[t.len() - 1]);
        lemma_last_segment_skip(t.drop_last(), k);
        assert(t.skip(k) =~= t.drop_last().skip(k).push(t.last()));
    }
}

/// The index `e` such that `s.take(e)` is `s` without its trailing slashes.
fn scan_trailing_slashes(path: &str, end: usize) -> (e: usize)
    requires
        end <= path@.len(),
    ensures
        e <= end,
        trim_trailing_slashes(path@.take(end as int)) == path@.take(e as int),
{
    let mut e = end;
    loop
        invariant
            e <= end <= path@.len(),
            trim_trailing_slashes(path@.take(end as int)) == trim_trailing_slashes(
                path@.take(e as int),
            ),
        ensures
            e <= end,
            trim_trailing_slashes(path@.take(end as int)) == path@.take(e as int),
        decreases e,
    {
        if e == 0 || path.get_char(e - 1) != '/' {
            proof {
                lemma_trim_take_stop(path@, e as int);
            }
            break;
        }
        proof {
            lemma_trim_take_step(path@, e as int - 1);
        }
        e = e - 1;
    }
    e
}

/// The index `k` at which the final segment of `s.take(e)` begins.
fn scan_segment_start(path: &str, e: usize) -> (k: usize)
    requires
        e <= path@.len(),
    ensures
        k <= e,
        drop_last_segment(path@.take(e as int)) == path@.take(k as int),
        forall|j: int| k <= j < e ==> path@[j] != '/',
        k == 0 || path@[k - 1] == '/',
{
    let mut k = e;
    loop
        invariant
            k <= e <= path@.len(),
            drop_last_segment(path@.take(e as int)) == drop_last_segment(path@.take(k as int)),
            forall|j: int| k <= j < e ==> path@[j] != '/',
        ensures
            k <= e,
            drop_last_segment(path@.take(e as int)) == path@.take(k as int),
            forall|j: int| k <= j < e ==> path@[j] != '/',
            k == 0 || path@[k - 1] == '/',
        decreases k,
    {
        if k == 0 || path.get_char(k - 1) == '/' {
            proof {
                lemma_drop_take_stop(path@, k as int);
            }
            break;
        }
        proof {
            lemma_drop_take_step(path@, k as int - 1);
        }
        k = k - 1;
    }
    k
}

/// The parent of `path` under the engine's path rules: the path with its final
/// segment stripped; the root, the empty path, and a bare run of slashes have
/// none, and a parent that degenerates to nothing is the root.
pub fn get_parent_path(path: &str) -> (r: Option<String>)
    ensures
        match r {
            None => parent_path_of(path@) is None,
            Some(p) => parent_path_of(path@) == Some(p@),
        },
{
    let n = path.unicode_len();
    proof {
        assert(path@.take(n as int) =~= path@);
    }
    let e = scan_trailing_slashes(path, n);
    if e == 0 {
        return None;
    }
    let k = scan_segment_start(path, e);
    let p = scan_trailing_slashes(path, k);
    if p == 0 {
        proof {
            reveal_strlit("/");
            assert("/"@ =~= seq!['/']);
        }
        Some("/".to_owned())
    } else {
        Some(path.substring_char(0, p).to_owned())
    }
}

/// The normalized form of a listing request: the empty path stands for the
/// root.
pub fn normalize_listing_path(path: &str) -> (r: String)
    ensures
        r@ == normalized_path(path@),
{
    if path.is_empty() {
        proof {
            reveal_strlit("/");
            assert("/"@ =~= seq!['/']);
        }
        "/".to_owned()
    } else {
        path.to_owned()
    }
}

/// The absolute path of a directory entry: the directory (without trailing
/// slashes), a separator, and the entry name.
pub fn join_child_path(dir: &str, name: &str) -> (r: String)
    ensures
        r@ == join_child(dir@, name@),
{
    let n = dir.unicode_len();
    proof {
        assert(dir@.take(n as int) =~= dir@);
    }
    let e = scan_trailing_slashes(dir, n);
    let mut out = dir.substring_char(0, e).to_owned();
    proof {
        reveal_strlit("/");
        assert("/"@ =~= seq!['/']);
    }
    out.append("/");
    out.append(name);
    out
}

/// The filename a transfer reports: the final segment of the source path, or
/// the whole path when no segment can be extracted.
pub fn file_name_for_events(path: &str) -> (r: String)
    ensures
        r@ == event_file_name(path@),
{
    let n = path.unicode_len();
    proof {
        assert(path@.take(n as int) =~= path@);
    }
    let e = scan_trailing_slashes(path, n);
    let k = scan_segment_start(path, e);
    proof {
        lemma_last_segment_skip(path@.take(e as int), k as int);
    }
    if k == e {
        proof {
            assert(path@.take(e as int).skip(k as int) =~= Seq::<char>::empty());
        }
        path.to_owned()
    } else {
        proof {
            assert(path@.take(e as int).skip(k as int) =~= path@.subrange(k as int, e as int));
        }
        path.substring_char(k, e).to_owned()
    }
}

/// The home directory used for tilde expansion: the environment's value, or
/// the root directory when unset.
pub fn home_for_tilde(env_home: Option<String>) -> (r: String)
    ensures
        match env_home {
            Some(h) => r@ == h@,
            None => r@ == "/"@,
        },
{
    match env_home {
        Some(h) => h,
        None => "/".to_owned(),
    }
}

/// Tilde expansion for local paths: `~` (or the empty path) becomes `home`,
/// `~/rest` becomes `home` followed by `/rest`, and any other path is
/// untouched.
pub fn expand_tilde(path: &str, home: &str) -> (r: String)
    ensures
        r@ == tilde_expanded(path@, home@),
{
    let n = path.unicode_len();
    if n == 0 {
        proof {
            assert(path@ =~= Seq::<char>::empty());
        }
        return home.to_owned();
    }
    if n == 1 && path.get_char(0) == '~' {
        proof {
            assert(path@ =~= seq!['~']);
        }
        return home.to_owned();
    }
    if n >= 2 && path.get_char(0) == '~' && path.get_char(1) == '/' {
        let mut out = home.to_owned();
        let rest = path.substring_char(1, n);
        proof {
            assert(path@.subrange(1, n as int) =~= path@.skip(1));
        }
        out.append(rest);
        proof {
            assert(path@ != seq!['~']) by {
                assert(path@.len() >= 2);
            }
        }
        return out;
    }
    proof {
        if path@ == seq!['~'] {
            assert(path@.len() == 1);
            assert(path@[0] == '~');
        }
    }
    path.to_owned()
}

} // verus!
