//! How the app shell, the bundles and the message catalogs are cached, and
//! which requests get the shell.

use vstd::prelude::*;

use crate::text::{chars_of, contains_str, has_infix};

verus! {

/// A content-hashed name is never reused, so its bytes can be held forever.
pub const IMMUTABLE: &'static str = "public, max-age=31536000, immutable";

/// index.html and the locale catalogs keep their names across deploys, and
/// are revalidated against their ETag.
pub const REVALIDATE: &'static str = "public, max-age=0, must-revalidate";

/// The index of the last `c` in `s`, or -1 when there is none.
pub open spec fn last_index(s: Seq<char>, c: char) -> int
    decreases s.len(),
{
    if s.len() == 0 {
        -1
    } else if s.last() == c {
        s.len() - 1
    } else {
        last_index(s.drop_last(), c)
    }
}

pub open spec fn is_lower_hex(c: char) -> bool {
    ('0' <= c && c <= '9') || ('a' <= c && c <= 'f')
}

/// The last path segment of `path`, its stem before the final `.`, and the
/// dotted part of that stem: Parcel names a bundle `<name>.<hash>.<ext>`.
pub open spec fn hash_segment(path: Seq<char>) -> Option<Seq<char>> {
    let name = path.subrange(last_index(path, '/') + 1, path.len() as int);
    let ext_dot = last_index(name, '.');
    if ext_dot < 0 {
        None
    } else {
        let stem = name.subrange(0, ext_dot);
        let hash_dot = last_index(stem, '.');
        if hash_dot < 0 {
            None
        } else {
            Some(stem.subrange(hash_dot + 1, stem.len() as int))
        }
    }
}

/// Whether the request path names a content-hashed bundle. Parcel writes eight
/// lowercase hex digits before the extension; demanding at least that keeps a
/// merely dotted name (`vendor.min.js`) from being served as immutable.
pub open spec fn content_hashed(path: Seq<char>) -> bool {
    match hash_segment(path) {
        Some(hash) => hash.len() >= 8 && forall|i: int| 0 <= i < hash.len() ==> is_lower_hex(#[trigger] hash[i]),
        None => false,
    }
}

proof fn lemma_last_index_bounds(s: Seq<char>, c: char)
    ensures
        -1 <= last_index(s, c) < s.len(),
        last_index(s, c) >= 0 ==> s[last_index(s, c)] == c,
    decreases s.len(),
{
    if s.len() > 0 && s.last() != c {
        lemma_last_index_bounds(s.drop_last(), c);
    }
}

/// The index of the last `c` among `cs[..end]`.
fn last_index_of(cs: &[char], end: usize, c: char) -> (r: Option<usize>)
    requires
        end <= cs@.len(),
    ensures
        match r {
            Some(i) => i as int == last_index(cs@.subrange(0, end as int), c) && i < end,
            None => last_index(cs@.subrange(0, end as int), c) == -1,
        },
{
    let mut j = end;
    while j > 0
        invariant
            j <= end <= cs@.len(),
            last_index(cs@.subrange(0, end as int), c) == last_index(cs@.subrange(0, j as int), c),
        decreases j,
    {
        proof {
            assert(cs@.subrange(0, j as int).drop_last() =~= cs@.subrange(0, j - 1));
        }
        if cs[j - 1] == c {
            return Some(j - 1);
        }
        j = j - 1;
    }
    None
}

pub fn is_content_hashed(path: &str) -> (r: bool)
    ensures
        r == content_hashed(path@),
{
    let cs = chars_of(path);
    let n = cs.len();
    assert(cs@.subrange(0, n as int) =~= cs@);
    let start = match last_index_of(cs.as_slice(), n, '/') {
        Some(i) => i + 1,
        None => 0,
    };
    let ghost name = cs@.subrange(start as int, n as int);
    // The name is cs[start..n]; its dots are found by scanning back from n.
    let ext_dot = match last_index_of(cs.as_slice(), n, '.') {
        Some(i) if i >= start => i,
        _ => {
            proof {
                lemma_last_index_shift(cs@, start as int, n as int, '.');
            }
            return false;
        },
    };
    proof {
        lemma_last_index_shift(cs@, start as int, n as int, '.');
    }
    let hash_dot = match last_index_of(cs.as_slice(), ext_dot, '.') {
        Some(i) if i >= start => i,
        _ => {
            proof {
                lemma_last_index_shift(cs@, start as int, ext_dot as int, '.');
                assert(name.subrange(0, ext_dot - start) =~= cs@.subrange(start as int, ext_dot as int));
            }
            return false;
        },
    };
    proof {
        lemma_last_index_shift(cs@, start as int, ext_dot as int, '.');
        assert(name.subrange(0, ext_dot - start) =~= cs@.subrange(start as int, ext_dot as int));
    }
    let ghost hash = cs@.subrange(hash_dot + 1, ext_dot as int);
    assert(hash_segment(path@) == Some(hash)) by {
        assert(name.subrange(0, ext_dot - start).subrange(hash_dot - start + 1, ext_dot - start)
            =~= hash);
    }
    if ext_dot - hash_dot - 1 < 8 {
        return false;
    }
    let mut k = hash_dot + 1;
    while k < ext_dot
        invariant
            hash_dot < k <= ext_dot <= n == cs@.len(),
            hash == cs@.subrange(hash_dot + 1, ext_dot as int),
            hash_segment(path@) == Some(hash),
            forall|i: int| hash_dot + 1 <= i < k ==> is_lower_hex(#[trigger] cs@[i]),
        decreases ext_dot - k,
    {
        let c = cs[k];
        if !(('0' <= c && c <= '9') || ('a' <= c && c <= 'f')) {
            assert(hash[k - hash_dot - 1] == c);
            return false;
        }
        k = k + 1;
    }
    assert forall|i: int| 0 <= i < hash.len() implies is_lower_hex(#[trigger] hash[i]) by {
        assert(hash[i] == cs@[hash_dot + 1 + i]);
    }
    true
}

/// Within `s[start..end]`, the last `c` is found by scanning `s[..end]` back
/// and keeping the hit only when it lies at or after `start`.
proof fn lemma_last_index_shift(s: Seq<char>, start: int, end: int, c: char)
    requires
        0 <= start <= end <= s.len(),
    ensures
        ({
            let whole = last_index(s.subrange(0, end), c);
            let part = last_index(s.subrange(start, end), c);
            if whole >= start {
                part == whole - start
            } else {
                part == -1
            }
        }),
    decreases end - start,
{
    lemma_last_index_bounds(s.subrange(0, start), c);
    if end > start {
        assert(s.subrange(0, end).drop_last() =~= s.subrange(0, end - 1));
        assert(s.subrange(start, end).drop_last() =~= s.subrange(start, end - 1));
        lemma_last_index_shift(s, start, end - 1, c);
    } else {
        assert(s.subrange(0, end) =~= s.subrange(0, start));
        lemma_last_index_bounds(s.subrange(0, start), c);
    }
}

/// `IMMUTABLE` for a content-hashed bundle, `REVALIDATE` for everything else.
pub fn cache_control_for(path: &str) -> (r: &'static str)
    ensures
        r@ == if content_hashed(path@) {
            IMMUTABLE@
        } else {
            REVALIDATE@
        },
{
    if is_content_hashed(path) {
        IMMUTABLE
    } else {
        REVALIDATE
    }
}

/// Client-side routes such as /admin/users/alice have no file behind them, so
/// the shell answers for them. The decision reads Accept rather than the path:
/// a navigation asks for text/html; a bundle fetched by `<script>` or
/// `fetch()` does not, and stays a 404. No Accept at all counts as an asset.
pub fn wants_html(accept: Option<&str>) -> (r: bool)
    ensures
        r == (accept matches Some(a) && has_infix(a@, "text/html"@)),
{
    match accept {
        Some(a) => contains_str(a, "text/html"),
        None => false,
    }
}

/// The `Cache-Control` a response to `path` carries: the one its path calls
/// for on a success or a 304, none otherwise, so that a 404 under a
/// hashed-looking path is not pinned in a CDN past the deploy that publishes
/// the file.
pub fn cache_header(path: &str, status: u16) -> (r: Option<&'static str>)
    ensures
        match r {
            Some(v) => (200 <= status < 300 || status == 304) && v@ == if content_hashed(path@) {
                IMMUTABLE@
            } else {
                REVALIDATE@
            },
            None => !(200 <= status < 300 || status == 304),
        },
{
    if (200 <= status && status < 300) || status == 304 {
        Some(cache_control_for(path))
    } else {
        None
    }
}

} // verus!
