use vstd::prelude::*;

verus! {

/// Whether `s` begins with `p`.
pub open spec fn has_prefix(s: Seq<char>, p: Seq<char>) -> bool {
    p.len() <= s.len() && s.subrange(0, p.len() as int) == p
}

/// A location is fetched over the network when it names an HTTP(S) scheme.
pub open spec fn is_url_spec(s: Seq<char>) -> bool {
    has_prefix(s, "http://"@) || has_prefix(s, "https://"@)
}

/// The characters of `t` up to, not including, its first `/`.
pub open spec fn before_slash(t: Seq<char>) -> Seq<char>
    decreases t.len(),
{
    if t.len() == 0 {
        t
    } else if t[0] == '/' {
        Seq::empty()
    } else {
        seq![t[0]] + before_slash(t.drop_first())
    }
}

/// The `host[:port]` part of a URL; any other location stands for itself.
pub open spec fn source_of(s: Seq<char>) -> Seq<char> {
    if has_prefix(s, "http://"@) {
        before_slash(s.subrange("http://"@.len() as int, s.len() as int))
    } else if has_prefix(s, "https://"@) {
        before_slash(s.subrange("https://"@.len() as int, s.len() as int))
    } else {
        s
    }
}

proof fn lemma_before_slash(t: Seq<char>, j: int)
    requires
        0 <= j <= t.len(),
        forall|k: int| 0 <= k < j ==> t[k] != '/',
        j == t.len() || t[j] == '/',
    ensures
        before_slash(t) == t.subrange(0, j),
    decreases j,
{
    if j == 0 {
        assert(before_slash(t) =~= t.subrange(0, 0));
    } else {
        lemma_before_slash(t.drop_first(), j - 1);
        assert(before_slash(t) =~= t.subrange(0, j));
    }
}

pub(crate) fn starts_with(s: &str, p: &str) -> (r: bool)
    ensures
        r == has_prefix(s@, p@),
{
    let n = s.unicode_len();
    let m = p.unicode_len();
    if m > n {
        return false;
    }
    let mut i: usize = 0;
    while i < m
        invariant
            n == s@.len(),
            m == p@.len(),
            m <= n,
            i <= m,
            forall|k: int| 0 <= k < i ==> s@[k] == p@[k],
        decreases m - i,
    {
        if s.get_char(i) != p.get_char(i) {
            assert(s@.subrange(0, m as int)[i as int] != p@[i as int]);
            return false;
        }
        i = i + 1;
    }
    assert(s@.subrange(0, m as int) =~= p@);
    true
}

/// Tells a network location from a filesystem path.
pub fn is_url(location: &str) -> (r: bool)
    ensures
        r == is_url_spec(location@),
{
    starts_with(location, "http://") || starts_with(location, "https://")
}

fn host_part(s: &str, offset: usize) -> (r: String)
    requires
        offset <= s@.len(),
    ensures
        r@ == before_slash(s@.subrange(offset as int, s@.len() as int)),
{
    let n = s.unicode_len();
    let mut j: usize = offset;
    while j < n && s.get_char(j) != '/'
        invariant
            n == s@.len(),
            offset <= j <= n,
            forall|k: int| offset <= k < j ==> s@[k] != '/',
        decreases n - j,
    {
        j = j + 1;
    }
    let t = Ghost(s@.subrange(offset as int, n as int));
    proof {
        lemma_before_slash(t@, j - offset);
        assert(t@.subrange(0, j - offset) =~= s@.subrange(offset as int, j as int));
    }
    String::from_str(s.substring_char(offset, j))
}

/// The source label derived from a location: `host[:port]` of a URL, or the
/// location unchanged.
pub fn extract_source(url_or_path: &str) -> (r: String)
    ensures
        r@ == source_of(url_or_path@),
{
    if starts_with(url_or_path, "http://") {
        proof {
            reveal_strlit("http://");
        }
        host_part(url_or_path, 7)
    } else if starts_with(url_or_path, "https://") {
        proof {
            reveal_strlit("https://");
        }
        host_part(url_or_path, 8)
    } else {
        String::from_str(url_or_path)
    }
}

} // verus!
