//! Route paths: how a route's path is extended, and the pattern and parameter
//! by which a nested service receives the rest of a request's path.
use vstd::prelude::*;
use crate::recognizer::{recognizable_pattern, nul_free};

verus! {

/// The pattern that a nested service is also mounted at, under its prefix:
/// a named wildcard that captures the rest of the path.
pub const REST_PATTERN: &'static str = "*--tide-path-rest";

/// The name of the parameter that `REST_PATTERN` captures.
pub const REST_PARAM: &'static str = "--tide-path-rest";

pub open spec fn ends_with_slash(s: Seq<char>) -> bool {
    s.len() > 0 && s.last() == '/'
}

pub open spec fn starts_with_slash(s: Seq<char>) -> bool {
    s.len() > 0 && s[0] == '/'
}

/// The path of the route at `path` below a route at `base`: a '/' goes
/// between them where neither brings one, and the path "/" adds nothing.
pub open spec fn joined(base: Seq<char>, path: Seq<char>) -> Seq<char> {
    let sep = if !ends_with_slash(base) && !starts_with_slash(path) {
        seq!['/']
    } else {
        Seq::empty()
    };
    let tail = if path == seq!['/'] {
        Seq::empty()
    } else {
        path
    };
    base + sep + tail
}

fn ends_with_slash_exec(s: &str) -> (b: bool)
    ensures
        b == ends_with_slash(s@),
{
    let n = s.unicode_len();
    n > 0 && s.get_char(n - 1) == '/'
}

fn starts_with_slash_exec(s: &str) -> (b: bool)
    ensures
        b == starts_with_slash(s@),
{
    let n = s.unicode_len();
    n > 0 && s.get_char(0) == '/'
}

/// `joined` of the two paths.
pub(crate) fn join(base: &str, path: &str) -> (p: String)
    ensures
        p@ == joined(base@, path@),
{
    proof {
        reveal_strlit("/");
    }
    let mut p = String::from_str(base);
    if !ends_with_slash_exec(base) && !starts_with_slash_exec(path) {
        p.append("/");
    }
    let is_root = path.unicode_len() == 1 && path.get_char(0) == '/';
    if !is_root {
        p.append(path);
    }
    proof {
        if path@ == seq!['/'] {
            assert(is_root);
        }
        if is_root {
            assert(path@ =~= seq!['/']);
        }
        assert(p@ =~= joined(base@, path@));
    }
    p
}

/// The route at "/" below a route is that route itself.
pub proof fn law_join_root_is_identity(base: Seq<char>)
    ensures
        joined(base, seq!['/']) == base,
{
    assert(joined(base, seq!['/']) =~= base);
}

/// Below a route whose path ends with '/', or for a path that starts with
/// '/', the paths are put one after the other (but for the path "/").
pub proof fn law_join_concatenates(base: Seq<char>, path: Seq<char>)
    requires
        (base.len() > 0 && base[base.len() - 1] == '/') || (path.len() > 0 && path[0] == '/'),
        path != seq!['/'],
    ensures
        joined(base, path) == base + path,
{
    assert(joined(base, path) =~= base + path);
}

/// Below a route whose path does not end with '/', a path that does not
/// start with '/' is put after a '/' that separates them, whatever it starts
/// with.
pub proof fn law_join_inserts_separator(base: Seq<char>, path: Seq<char>)
    requires
        base.len() == 0 || base[base.len() - 1] != '/',
        path.len() == 0 || path[0] != '/',
    ensures
        joined(base, path) == base + seq!['/'] + path,
        joined(base, path).len() == base.len() + 1 + path.len(),
        joined(base, path)[base.len() as int] == '/',
{
    if path == seq!['/'] {
        assert(path[0] == '/');
    }
    assert(joined(base, path) =~= base + seq!['/'] + path);
}

/// The path of a route below another starts with the other's path, and the
/// rest is the sub-path, or the sub-path behind one added '/'.
pub proof fn law_join_extends_base(base: Seq<char>, path: Seq<char>)
    ensures
        joined(base, path).subrange(0, base.len() as int) == base,
        joined(base, path).len() >= base.len(),
        path != seq!['/'] ==> (joined(base, path) == base + path || joined(base, path) == base + seq!['/'] + path),
        path == seq!['/'] ==> joined(base, path) == base,
{
    assert(joined(base, path).subrange(0, base.len() as int) =~= base);
    if path != seq!['/'] {
        if (base.len() == 0 || base[base.len() - 1] != '/') && (path.len() == 0 || path[0] != '/') {
            law_join_inserts_separator(base, path);
        } else {
            assert(joined(base, path) =~= base + path);
        }
    } else {
        assert(joined(base, path) =~= base);
    }
}

/// Whether the text holds no '\0' (`nul_free`): the paths that can be
/// routed.
pub fn is_nul_free(s: &str) -> (b: bool)
    ensures
        b == nul_free(s@),
{
    let n = s.unicode_len();
    let mut i: usize = 0;
    while i < n
        invariant
            n == s@.len(),
            i <= n,
            forall|j: int| 0 <= j < i ==> s@[j] != '\0',
        decreases n - i,
    {
        if s.get_char(i) == '\0' {
            return false;
        }
        i = i + 1;
    }
    true
}

/// Whether a route can be registered at this path (`recognizable_pattern`).
pub fn is_recognizable(route: &str) -> (b: bool)
    ensures
        b == recognizable_pattern(route@),
{
    if !is_nul_free(route) {
        return false;
    }
    let n = route.unicode_len();
    if n == 0 {
        return true;
    }
    let first = route.get_char(0);
    if first == '/' {
        if n == 1 {
            return true;
        }
        let second = route.get_char(1);
        proof {
            assert(route@.drop_first()[0] == route@[1]);
        }
        (second as u32) < 0x80
    } else {
        (first as u32) < 0x80
    }
}

/// The mount point of the rest of a path below a route can be registered
/// wherever the route's own path can.
pub proof fn lemma_rest_pattern_recognizable(base: Seq<char>)
    requires
        recognizable_pattern(base),
    ensures
        recognizable_pattern(joined(base, REST_PATTERN@)),
{
    reveal_strlit("*--tide-path-rest");
    reveal_strlit("/");
    let j = joined(base, REST_PATTERN@);
    assert(REST_PATTERN@[0] == '*');
    assert(REST_PATTERN@ =~= seq!['*', '-', '-', 't', 'i', 'd', 'e', '-', 'p', 'a', 't', 'h', '-', 'r', 'e', 's', 't']);
    assert(nul_free(j));
    if base.len() == 0 {
        assert(j[0] == '/');
        assert(j.drop_first()[0] == '*');
    } else if base[0] == '/' {
        if base.len() == 1 {
            assert(j.drop_first()[0] == '*');
        } else {
            assert(j.drop_first()[0] == base[1]);
        }
    } else {
        assert(j[0] == base[0]);
    }
}

} // verus!
