//! POSIX-style remote paths: parents, last segments, joining and the
//! expansion of a leading `~`.

use vstd::prelude::*;
use vstd::string::StringExecFns;
use crate::text::{chars_of, string_of, text_of};

verus! {

/// `s` without the slashes at its end.
pub open spec fn trim_slashes(s: Seq<char>) -> Seq<char>
    decreases s.len(),
{
    if s.len() > 0 && s.last() == '/' {
        trim_slashes(s.drop_last())
    } else {
        s
    }
}

/// The index of the last `/` in `s`, or -1 when `s` has none.
pub open spec fn last_slash(s: Seq<char>) -> int
    decreases s.len(),
{
    if s.len() == 0 {
        -1
    } else if s.last() == '/' {
        s.len() - 1
    } else {
        last_slash(s.drop_last())
    }
}

/// `path` without one slash at its end, if it has one.
pub open spec fn drop_one_slash(path: Seq<char>) -> Seq<char> {
    if path.len() > 0 && path.last() == '/' {
        path.drop_last()
    } else {
        path
    }
}

/// The parent of `path`: none for the empty path and for `/`; otherwise one
/// trailing slash is set aside and the parent is what stands before the
/// last `/`, or `/` itself when that slash is the first character or when
/// there is no slash at all.
pub open spec fn parent_of(path: Seq<char>) -> Option<Seq<char>> {
    if path.len() == 0 || path == seq!['/'] {
        None
    } else {
        let t = drop_one_slash(path);
        let i = last_slash(t);
        if i <= 0 {
            Some(seq!['/'])
        } else {
            Some(t.subrange(0, i))
        }
    }
}

/// The last segment of `path`: what follows the last `/` once trailing
/// slashes are set aside. A path made of slashes only, or of nothing, has
/// none.
pub open spec fn last_segment_of(path: Seq<char>) -> Option<Seq<char>> {
    let t = trim_slashes(path);
    if t.len() == 0 {
        None
    } else {
        Some(t.subrange(last_slash(t) + 1, t.len() as int))
    }
}

/// The path of the entry `name` inside the directory `dir`.
pub open spec fn joined(dir: Seq<char>, name: Seq<char>) -> Seq<char> {
    trim_slashes(dir) + seq!['/'] + name
}

/// Whether a listing of `input` has to ask the server for the home
/// directory first: the input is empty, is `~`, or begins with `~/`.
pub open spec fn wants_home(input: Seq<char>) -> bool {
    input.len() == 0 || input == seq!['~'] || (input.len() >= 2 && input[0] == '~' && input[1]
        == '/')
}

/// The path a listing of `input` starts from, given the home directory the
/// server reported (`None` when it could not tell).
///
/// An empty input or `~` is the home directory, or `/` without one. An input
/// that begins with `~/` is the rest of it placed inside the home directory,
/// or the input as it is without one. Any other input is taken as it is.
pub open spec fn resolved(input: Seq<char>, home: Option<Seq<char>>) -> Seq<char> {
    if input.len() == 0 || input == seq!['~'] {
        match home {
            Some(h) => h,
            None => seq!['/'],
        }
    } else if input.len() >= 2 && input[0] == '~' && input[1] == '/' {
        match home {
            Some(h) => joined(h, input.subrange(2, input.len() as int)),
            None => input,
        }
    } else {
        input
    }
}

/// What `trim_slashes` keeps is the start of `s`, does not end in a slash,
/// and what it sets aside is slashes only.
pub proof fn lemma_trim_slashes(s: Seq<char>)
    ensures
        trim_slashes(s).len() <= s.len(),
        trim_slashes(s) == s.subrange(0, trim_slashes(s).len() as int),
        trim_slashes(s).len() > 0 ==> trim_slashes(s).last() != '/',
        forall|j: int| trim_slashes(s).len() <= j < s.len() ==> s[j] == '/',
    decreases s.len(),
{
    if s.len() > 0 && s.last() == '/' {
        lemma_trim_slashes(s.drop_last());
        let t = trim_slashes(s);
        assert(t =~= s.subrange(0, t.len() as int));
        assert forall|j: int| t.len() <= j < s.len() implies s[j] == '/' by {
            if j < s.len() - 1 {
                assert(s.drop_last()[j] == s[j]);
            }
        }
    } else {
        assert(s =~= s.subrange(0, s.len() as int));
    }
}

/// `last_slash` points at a slash after which no slash follows, and is -1
/// exactly when `s` holds no slash.
pub proof fn lemma_last_slash(s: Seq<char>)
    ensures
        -1 <= last_slash(s) < s.len(),
        last_slash(s) >= 0 ==> s[last_slash(s)] == '/',
        forall|j: int| last_slash(s) < j < s.len() ==> s[j] != '/',
    decreases s.len(),
{
    if s.len() > 0 && s.last() != '/' {
        lemma_last_slash(s.drop_last());
        assert forall|j: int| last_slash(s) < j < s.len() implies s[j] != '/' by {
            if j < s.len() - 1 {
                assert(s.drop_last()[j] == s[j]);
            }
        }
    }
}

/// A slash after which no slash follows is the last slash.
proof fn lemma_last_slash_is(s: Seq<char>, k: int)
    requires
        0 <= k < s.len(),
        s[k] == '/',
        forall|j: int| k < j < s.len() ==> s[j] != '/',
    ensures
        last_slash(s) == k,
{
    lemma_last_slash(s);
}

/// The parent of a path is `/`, or it is what stands in the path before
/// one of its slashes and is not empty. Only the empty path and `/` have
/// no parent.
pub proof fn lemma_parent_is_prefix(path: Seq<char>)
    ensures
        match parent_of(path) {
            Some(p) => p == seq!['/'] || (0 < p.len() < path.len() && p == path.subrange(
                0,
                p.len() as int,
            ) && path[p.len() as int] == '/'),
            None => path.len() == 0 || path == seq!['/'],
        },
{
    if !(path.len() == 0 || path == seq!['/']) {
        let t = drop_one_slash(path);
        let i = last_slash(t);
        lemma_last_slash(t);
        if i > 0 {
            assert(t.subrange(0, i) =~= path.subrange(0, i));
            assert(t[i] == path[i]);
        }
    }
}

/// The last segment of a path is not empty and holds no slash.
pub proof fn lemma_last_segment_is_a_name(path: Seq<char>)
    ensures
        match last_segment_of(path) {
            Some(name) => name.len() > 0 && forall|j: int| 0 <= j < name.len() ==> name[j] != '/',
            None => forall|j: int| 0 <= j < path.len() ==> path[j] == '/',
        },
{
    let t = trim_slashes(path);
    lemma_trim_slashes(path);
    lemma_last_slash(t);
    if t.len() > 0 {
        let name = t.subrange(last_slash(t) + 1, t.len() as int);
        assert(last_slash(t) < t.len() - 1) by {
            if last_slash(t) == t.len() - 1 {
                assert(t.last() == '/');
            }
        }
        assert forall|j: int| 0 <= j < name.len() implies name[j] != '/' by {
            assert(name[j] == t[last_slash(t) + 1 + j]);
        }
    }
}

/// The path of an entry ends in the name of the entry: joining a name to a
/// directory and taking the last segment gives the name back.
pub proof fn lemma_last_segment_of_joined(dir: Seq<char>, name: Seq<char>)
    requires
        name.len() > 0,
        forall|j: int| 0 <= j < name.len() ==> name[j] != '/',
    ensures
        last_segment_of(joined(dir, name)) == Some(name),
{
    let d = trim_slashes(dir);
    let p = joined(dir, name);
    assert(p.last() == name.last());
    assert(trim_slashes(p) == p);
    assert(p[d.len() as int] == '/');
    assert forall|j: int| d.len() < j < p.len() implies p[j] != '/' by {
        assert(p[j] == name[j - d.len() - 1]);
    }
    lemma_last_slash_is(p, d.len() as int);
    assert(p.subrange(d.len() as int + 1, p.len() as int) =~= name);
}

/// The length of `v[..end]` once its trailing slashes are set aside.
fn trimmed_len(v: &Vec<char>, end: usize) -> (n: usize)
    requires
        end <= v.len(),
    ensures
        n <= end,
        trim_slashes(v@.subrange(0, end as int)) == v@.subrange(0, n as int),
{
    let mut n: usize = end;
    while n > 0 && v[n - 1] == '/'
        invariant
            n <= end <= v.len(),
            trim_slashes(v@.subrange(0, end as int)) == trim_slashes(v@.subrange(0, n as int)),
        decreases n,
    {
        assert(v@.subrange(0, n as int).drop_last() =~= v@.subrange(0, n - 1));
        n = n - 1;
    }
    n
}

/// The index of the last `/` in `v[..end]`.
fn find_last_slash(v: &Vec<char>, end: usize) -> (r: Option<usize>)
    requires
        end <= v.len(),
    ensures
        match r {
            Some(i) => i < end && last_slash(v@.subrange(0, end as int)) == i,
            None => last_slash(v@.subrange(0, end as int)) == -1,
        },
{
    let mut k: usize = end;
    while k > 0
        invariant
            k <= end <= v.len(),
            last_slash(v@.subrange(0, end as int)) == last_slash(v@.subrange(0, k as int)),
        decreases k,
    {
        if v[k - 1] == '/' {
            return Some(k - 1);
        }
        assert(v@.subrange(0, k as int).drop_last() =~= v@.subrange(0, k - 1));
        k = k - 1;
    }
    None
}

/// The parent directory of `path`, or `None` where it has none.
pub fn get_parent_path(path: &str) -> (parent: Option<String>)
    ensures
        text_of(parent) == parent_of(path@),
{
    let v = chars_of(path);
    let n = v.len();
    if n == 0 || (n == 1 && v[0] == '/') {
        assert(n == 1 && v@[0] == '/' ==> path@ =~= seq!['/']);
        return None;
    }
    let end = if v[n - 1] == '/' {
        n - 1
    } else {
        n
    };
    assert(drop_one_slash(path@) =~= v@.subrange(0, end as int));
    proof {
        reveal_strlit("/");
        assert("/"@ =~= seq!['/']);
    }
    match find_last_slash(&v, end) {
        Some(i) => {
            if i == 0 {
                Some(String::from_str("/"))
            } else {
                let p = string_of(&v, 0, i);
                assert(v@.subrange(0, end as int).subrange(0, i as int) =~= v@.subrange(
                    0,
                    i as int,
                ));
                Some(p)
            }
        },
        None => Some(String::from_str("/")),
    }
}

/// The last segment of `path`, or `None` where it has none.
pub fn last_segment(path: &str) -> (name: Option<String>)
    ensures
        text_of(name) == last_segment_of(path@),
{
    let v = chars_of(path);
    let full = v.len();
    let n = trimmed_len(&v, full);
    assert(v@.subrange(0, full as int) =~= v@);
    if n == 0 {
        return None;
    }
    let start = match find_last_slash(&v, n) {
        Some(i) => i + 1,
        None => 0,
    };
    let name = string_of(&v, start, n);
    assert(v@.subrange(0, n as int).subrange(start as int, n as int) =~= v@.subrange(
        start as int,
        n as int,
    ));
    Some(name)
}

/// The path of the entry `name` inside the directory `dir`: `dir` without
/// its trailing slashes, a slash, and `name`.
pub fn join_path(dir: &str, name: &str) -> (path: String)
    ensures
        path@ == joined(dir@, name@),
{
    let v = chars_of(dir);
    let full = v.len();
    let n = trimmed_len(&v, full);
    assert(v@.subrange(0, full as int) =~= v@);
    proof {
        reveal_strlit("/");
        assert("/"@ =~= seq!['/']);
    }
    string_of(&v, 0, n).concat("/").concat(name)
}

/// The path a listing reads: the canonical form of `path` that the server
/// gave, or `path` itself where it gave none.
pub fn canonical_or(path: String, answer: Option<String>) -> (r: String)
    ensures
        r@ == match answer {
            Some(c) => c@,
            None => path@,
        },
{
    match answer {
        Some(c) => c,
        None => path,
    }
}

/// Whether a listing of `input` needs the home directory.
pub fn needs_home(input: &str) -> (b: bool)
    ensures
        b == wants_home(input@),
{
    let v = chars_of(input);
    let n = v.len();
    assert(n == 1 && v@[0] == '~' ==> input@ =~= seq!['~']);
    n == 0 || (n == 1 && v[0] == '~') || (n >= 2 && v[0] == '~' && v[1] == '/')
}

/// The path a listing of `input` starts from, given the home directory
/// that the server reported, if it did.
pub fn resolve_path(input: &str, home: Option<&str>) -> (path: String)
    ensures
        path@ == resolved(
            input@,
            match home {
                Some(h) => Some(h@),
                None => None,
            },
        ),
{
    let v = chars_of(input);
    let n = v.len();
    assert(n == 1 && v@[0] == '~' ==> input@ =~= seq!['~']);
    if n == 0 || (n == 1 && v[0] == '~') {
        match home {
            Some(h) => String::from_str(h),
            None => {
                proof {
                    reveal_strlit("/");
                    assert("/"@ =~= seq!['/']);
                }
                String::from_str("/")
            },
        }
    } else if n >= 2 && v[0] == '~' && v[1] == '/' {
        match home {
            Some(h) => {
                let rest = string_of(&v, 2, n);
                join_path(h, rest.as_str())
            },
            None => String::from_str(input),
        }
    } else {
        String::from_str(input)
    }
}

} // verus!
