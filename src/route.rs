use vstd::prelude::*;

use crate::text::chars_of;

verus! {

/// The HTTP method of a request, as far as routing tells methods apart.
#[derive(PartialEq, Eq, Structural, Clone, Copy, Debug)]
pub enum Method {
    Get,
    Head,
    Other,
}

/// What a request asks for.
pub enum Route {
    /// `/v2` or `/v2/`: the API version probe.
    ApiProbe,
    /// `/v2/<name>/manifests/<reference>`.
    Manifest { name: String, reference: String },
    /// `/v2/<name>/blobs/<digest>`.
    Blob { name: String, digest: String },
    /// Anything else.
    Unknown,
}

pub enum RouteView {
    ApiProbe,
    Manifest { name: Seq<char>, reference: Seq<char> },
    Blob { name: Seq<char>, digest: Seq<char> },
    Unknown,
}

impl View for Route {
    type V = RouteView;

    open spec fn view(&self) -> RouteView {
        match self {
            Route::ApiProbe => RouteView::ApiProbe,
            Route::Manifest { name, reference } => RouteView::Manifest {
                name: name@,
                reference: reference@,
            },
            Route::Blob { name, digest } => RouteView::Blob { name: name@, digest: digest@ },
            Route::Unknown => RouteView::Unknown,
        }
    }
}

pub open spec fn v2_root() -> Seq<char> {
    seq!['/', 'v', '2']
}

pub open spec fn v2_prefix() -> Seq<char> {
    seq!['/', 'v', '2', '/']
}

pub open spec fn manifests_token() -> Seq<char> {
    seq!['/', 'm', 'a', 'n', 'i', 'f', 'e', 's', 't', 's', '/']
}

pub open spec fn blobs_token() -> Seq<char> {
    seq!['/', 'b', 'l', 'o', 'b', 's', '/']
}

/// `tok` stands in `p` from index `i` on.
pub open spec fn occurs_at(p: Seq<char>, i: int, tok: Seq<char>) -> bool {
    0 <= i && i + tok.len() <= p.len() && p.subrange(i, i + tok.len()) == tok
}

pub open spec fn token_at(p: Seq<char>, i: int) -> bool {
    occurs_at(p, i, manifests_token()) || occurs_at(p, i, blobs_token())
}

/// `/manifests/` or `/blobs/` starts at `k`, and neither starts further right.
pub open spec fn is_last_token(p: Seq<char>, k: int) -> bool {
    &&& token_at(p, k)
    &&& forall|j: int| k < j < p.len() ==> !token_at(p, j)
}

/// The route of a request with method `method` for path `p`. Under `/v2/`
/// the rightmost `/manifests/` or `/blobs/` splits the path: before it the
/// repository name, which is not empty and may hold slashes; after it one
/// non-empty segment, the reference or digest.
pub open spec fn route_of(method: Method, p: Seq<char>) -> RouteView {
    if method == Method::Other {
        RouteView::Unknown
    } else if p == v2_root() || p == v2_prefix() {
        RouteView::ApiProbe
    } else if p.len() >= 4 && p.take(4) == v2_prefix() && exists|k: int| is_last_token(p, k) {
        let k = choose|k: int| is_last_token(p, k);
        let is_manifest = occurs_at(p, k, manifests_token());
        let rest = if is_manifest {
            p.skip(k + 11)
        } else {
            p.skip(k + 7)
        };
        if k > 4 && rest.len() > 0 && !rest.contains('/') {
            if is_manifest {
                RouteView::Manifest { name: p.subrange(4, k), reference: rest }
            } else {
                RouteView::Blob { name: p.subrange(4, k), digest: rest }
            }
        } else {
            RouteView::Unknown
        }
    } else {
        RouteView::Unknown
    }
}

fn occurs(cs: &Vec<char>, i: usize, tok: &Vec<char>) -> (r: bool)
    ensures
        r == occurs_at(cs@, i as int, tok@),
{
    let n = cs.len();
    if tok.len() > n || i > n - tok.len() {
        return false;
    }
    let mut j: usize = 0;
    while j < tok.len()
        invariant
            n == cs@.len(),
            i + tok@.len() <= n,
            j <= tok@.len(),
            forall|m: int| 0 <= m < j ==> cs@[i + m] == tok@[m],
        decreases tok@.len() - j,
    {
        if cs[i + j] != tok[j] {
            assert(cs@.subrange(i as int, i + tok@.len())[j as int] == cs@[i + j]);
            return false;
        }
        j = j + 1;
    }
    assert(cs@.subrange(i as int, i + tok@.len()) =~= tok@);
    true
}

fn slash_from(cs: &Vec<char>, start: usize) -> (r: bool)
    requires
        start <= cs@.len(),
    ensures
        r == cs@.skip(start as int).contains('/'),
{
    let n = cs.len();
    let mut j: usize = start;
    while j < n
        invariant
            n == cs@.len(),
            start <= j <= n,
            forall|m: int| start <= m < j ==> cs@[m] != '/',
        decreases n - j,
    {
        if cs[j] == '/' {
            assert(cs@.skip(start as int)[j - start] == '/');
            return true;
        }
        j = j + 1;
    }
    assert(!cs@.skip(start as int).contains('/')) by {
        if cs@.skip(start as int).contains('/') {
            let m = choose|m: int|
                0 <= m < cs@.skip(start as int).len() && cs@.skip(start as int)[m] == '/';
            assert(cs@[start + m] == '/');
        }
    }
    false
}

/// Sorts a request into the route it asks for.
pub fn route(method: Method, path: &str) -> (r: Route)
    ensures
        r@ == route_of(method, path@),
{
    if method == Method::Other {
        return Route::Unknown;
    }
    let cs = chars_of(path);
    let n = cs.len();
    let root = vec!['/', 'v', '2'];
    let prefix = vec!['/', 'v', '2', '/'];
    let manifests = vec!['/', 'm', 'a', 'n', 'i', 'f', 'e', 's', 't', 's', '/'];
    let blobs = vec!['/', 'b', 'l', 'o', 'b', 's', '/'];
    assert(root@ =~= v2_root());
    assert(prefix@ =~= v2_prefix());
    assert(manifests@ =~= manifests_token());
    assert(blobs@ =~= blobs_token());
    if (n == 3 && occurs(&cs, 0, &root)) || (n == 4 && occurs(&cs, 0, &prefix)) {
        assert(path@.subrange(0, path@.len() as int) =~= path@);
        return Route::ApiProbe;
    }
    proof {
        if path@ == v2_root() {
            assert(path@.subrange(0, 3) =~= path@);
        }
        if path@ == v2_prefix() {
            assert(path@.subrange(0, 4) =~= path@);
        }
    }
    if n < 4 || !occurs(&cs, 0, &prefix) {
        assert(n >= 4 ==> path@.take(4) =~= path@.subrange(0, 4));
        return Route::Unknown;
    }
    assert(path@.take(4) =~= path@.subrange(0, 4));
    let mut k: usize = n;
    let mut found = false;
    while k > 0
        invariant_except_break
            k <= n,
            !found,
            forall|j: int| k <= j < n ==> !token_at(path@, j),
        invariant
            cs@ == path@,
            n == path@.len(),
            manifests@ == manifests_token(),
            blobs@ == blobs_token(),
        ensures
            found ==> k < n && token_at(path@, k as int) && forall|j: int|
                k < j < n ==> !token_at(path@, j),
            !found ==> forall|j: int| 0 <= j < n ==> !token_at(path@, j),
        decreases k,
    {
        k = k - 1;
        if occurs(&cs, k, &manifests) || occurs(&cs, k, &blobs) {
            found = true;
            break;
        }
    }
    if !found {
        proof {
            assert forall|j: int| !is_last_token(path@, j) by {
                if is_last_token(path@, j) {
                    assert(0 <= j < n);
                }
            }
        }
        return Route::Unknown;
    }
    proof {
        assert(is_last_token(path@, k as int));
        let c = choose|c: int| is_last_token(path@, c);
        assert(c == k) by {
            if c < k {
                assert(!token_at(path@, k as int));
            } else if c > k {
                assert(!token_at(path@, c));
            }
        }
    }
    let is_manifest = occurs(&cs, k, &manifests);
    let start = if is_manifest { k + 11 } else { k + 7 };
    if k <= 4 || start >= n {
        assert(start <= n);
        return Route::Unknown;
    }
    if slash_from(&cs, start) {
        return Route::Unknown;
    }
    let name = path.substring_char(4, k).to_owned();
    let rest = path.substring_char(start, n).to_owned();
    if is_manifest {
        Route::Manifest { name, reference: rest }
    } else {
        Route::Blob { name, digest: rest }
    }
}

} // verus!
