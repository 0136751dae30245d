use vstd::prelude::*;
use vstd::string::StringExecFns;

use crate::layout::{
    all_hex, digest_hex, find_manifest, find_tag, has_sha256_prefix, index_entries, is_digest_reference,
    parse_index, probe_of, sha256_hex, sha256_prefix,
};
use crate::route::{
    blobs_token, is_last_token, manifests_token, occurs_at, route, route_of, token_at, v2_prefix,
    v2_root, Method, Route, RouteView,
};
use crate::text::{decimal, is_hex_char, push_decimal};

verus! {

/// The media type every manifest is served with, whatever the client asks.
pub const OCI_MANIFEST_TYPE: &'static str = "application/vnd.oci.image.manifest.v1+json";

pub const API_VERSION_HEADER: &'static str = "Docker-Distribution-Api-Version";

pub const API_VERSION: &'static str = "registry/2.0";

/// One response header.
pub struct Header {
    pub name: String,
    pub value: String,
}

/// What a response carries after its headers.
pub enum Body {
    Empty,
    Text(String),
    /// The bytes of the blob file `blobs/sha256/<hex>`, served as a manifest.
    Manifest(String),
    /// The bytes of the blob file `blobs/sha256/<hex>`.
    Blob(String),
}

/// A response to send.
pub struct Reply {
    pub status: u16,
    pub headers: Vec<Header>,
    pub body: Body,
}

pub enum BodyView {
    Empty,
    Text(Seq<char>),
    Manifest(Seq<char>),
    Blob(Seq<char>),
}

pub struct ReplyView {
    pub status: u16,
    pub headers: Seq<(Seq<char>, Seq<char>)>,
    pub body: BodyView,
}

impl View for Header {
    type V = (Seq<char>, Seq<char>);

    open spec fn view(&self) -> (Seq<char>, Seq<char>) {
        (self.name@, self.value@)
    }
}

impl View for Body {
    type V = BodyView;

    open spec fn view(&self) -> BodyView {
        match self {
            Body::Empty => BodyView::Empty,
            Body::Text(t) => BodyView::Text(t@),
            Body::Manifest(h) => BodyView::Manifest(h@),
            Body::Blob(h) => BodyView::Blob(h@),
        }
    }
}

impl View for Reply {
    type V = ReplyView;

    open spec fn view(&self) -> ReplyView {
        ReplyView {
            status: self.status,
            headers: self.headers@.map_values(|h: Header| h@),
            body: self.body@,
        }
    }
}

/// The next thing to do for a request: answer it, or first read from the
/// image layout what the answer depends on.
pub enum Step {
    /// Send this reply.
    Done(Reply),
    /// Read `index.json` and resolve tag `reference` of repository `name`.
    ReadIndex { name: String, reference: String },
    /// Look up the blob file `blobs/sha256/<hex>` to serve it as a manifest.
    OpenManifest { hex: String },
    /// Look up the blob file `blobs/sha256/<hex>`, asked for as `digest`.
    OpenBlob { digest: String, hex: String },
}

pub enum StepView {
    Done(ReplyView),
    ReadIndex { name: Seq<char>, reference: Seq<char> },
    OpenManifest { hex: Seq<char> },
    OpenBlob { digest: Seq<char>, hex: Seq<char> },
}

impl View for Step {
    type V = StepView;

    open spec fn view(&self) -> StepView {
        match self {
            Step::Done(r) => StepView::Done(r@),
            Step::ReadIndex { name, reference } => StepView::ReadIndex {
                name: name@,
                reference: reference@,
            },
            Step::OpenManifest { hex } => StepView::OpenManifest { hex: hex@ },
            Step::OpenBlob { digest, hex } => StepView::OpenBlob { digest: digest@, hex: hex@ },
        }
    }
}

pub open spec fn api_version_header() -> (Seq<char>, Seq<char>) {
    (API_VERSION_HEADER@, API_VERSION@)
}

/// The answer to the API version probe.
pub open spec fn probe_reply() -> ReplyView {
    ReplyView {
        status: 200,
        headers: seq![
            ("Content-Type"@, "application/json; charset=utf-8"@),
            api_version_header(),
            ("X-Content-Type-Options"@, "nosniff"@),
        ],
        body: BodyView::Text("{}"@),
    }
}

/// The answer to anything that is not there.
pub open spec fn not_found_reply() -> ReplyView {
    ReplyView { status: 404, headers: seq![], body: BodyView::Text("Not Found"@) }
}

/// The answer that serves blob `hex`, of `size` bytes, as a manifest.
pub open spec fn manifest_reply(hex: Seq<char>, size: u64) -> ReplyView {
    ReplyView {
        status: 200,
        headers: seq![
            ("Content-Type"@, OCI_MANIFEST_TYPE@),
            ("Content-Length"@, decimal(size as nat)),
            ("Docker-Content-Digest"@, sha256_prefix() + hex),
            ("Etag"@, sha256_prefix() + hex),
            api_version_header(),
        ],
        body: BodyView::Manifest(hex),
    }
}

/// The answer that serves blob `hex`, asked for as `digest`.
pub open spec fn blob_reply(digest: Seq<char>, hex: Seq<char>) -> ReplyView {
    ReplyView {
        status: 200,
        headers: seq![
            ("Content-Type"@, "application/octet-stream"@),
            ("Docker-Content-Digest"@, digest),
            ("Etag"@, digest),
            api_version_header(),
            ("Cache-Control"@, "max-age=31536000"@),
        ],
        body: BodyView::Blob(hex),
    }
}

/// The first step for a request with method `method` for path `path`.
pub open spec fn begin_step(method: Method, path: Seq<char>) -> StepView {
    match route_of(method, path) {
        RouteView::ApiProbe => StepView::Done(probe_reply()),
        RouteView::Manifest { name, reference } => if has_sha256_prefix(reference) {
            match sha256_hex(reference) {
                Some(hex) => StepView::OpenManifest { hex },
                None => StepView::Done(not_found_reply()),
            }
        } else {
            StepView::ReadIndex { name, reference }
        },
        RouteView::Blob { name, digest } => match sha256_hex(digest) {
            Some(hex) => StepView::OpenBlob { digest, hex },
            None => StepView::Done(not_found_reply()),
        },
        RouteView::Unknown => StepView::Done(not_found_reply()),
    }
}

/// The step after reading `index.json`, whose text is `index` where the
/// file could be read.
pub open spec fn index_step(index: Option<Seq<char>>, name: Seq<char>, reference: Seq<char>) -> StepView {
    match index {
        Some(text) => match index_entries(text) {
            Some(es) => match find_tag(es, probe_of(name, reference)) {
                Some(hex) => StepView::OpenManifest { hex },
                None => StepView::Done(not_found_reply()),
            },
            None => StepView::Done(not_found_reply()),
        },
        None => StepView::Done(not_found_reply()),
    }
}

/// The reply for manifest blob `hex`, given its size where it is a regular
/// file.
pub open spec fn manifest_step(hex: Seq<char>, size: Option<u64>) -> ReplyView {
    match size {
        Some(n) => manifest_reply(hex, n),
        None => not_found_reply(),
    }
}

/// The reply for blob `hex`, asked for as `digest`, given whether it is
/// there.
pub open spec fn blob_step(digest: Seq<char>, hex: Seq<char>, found: bool) -> ReplyView {
    if found {
        blob_reply(digest, hex)
    } else {
        not_found_reply()
    }
}

fn header(name: &str, value: String) -> (h: Header)
    ensures
        h@ == (name@, value@),
{
    Header { name: String::from_str(name), value }
}

fn text(s: &str) -> (r: String)
    ensures
        r@ == s@,
{
    String::from_str(s)
}

fn not_found() -> (r: Reply)
    ensures
        r@ == not_found_reply(),
{
    let r = Reply { status: 404, headers: Vec::new(), body: Body::Text(text("Not Found")) };
    assert(r@.headers =~= seq![]);
    r
}

fn sha256_digest_text(hex: &str) -> (r: String)
    ensures
        r@ == sha256_prefix() + hex@,
{
    let mut s = String::from_str("sha256:");
    s.append(hex);
    proof {
        reveal_strlit("sha256:");
    }
    assert(s@ =~= sha256_prefix() + hex@);
    s
}

/// Decides the first step for a request.
pub fn begin(method: Method, path: &str) -> (r: Step)
    ensures
        r@ == begin_step(method, path@),
{
    match route(method, path) {
        Route::ApiProbe => {
            let mut headers: Vec<Header> = Vec::new();
            headers.push(header("Content-Type", text("application/json; charset=utf-8")));
            headers.push(header(API_VERSION_HEADER, text(API_VERSION)));
            headers.push(header("X-Content-Type-Options", text("nosniff")));
            let r = Reply { status: 200, headers, body: Body::Text(text("{}")) };
            assert(r@.headers =~= probe_reply().headers);
            Step::Done(r)
        },
        Route::Manifest { name, reference } => {
            if is_digest_reference(reference.as_str()) {
                match digest_hex(reference.as_str()) {
                    Some(hex) => Step::OpenManifest { hex },
                    None => Step::Done(not_found()),
                }
            } else {
                Step::ReadIndex { name, reference }
            }
        },
        Route::Blob { name, digest } => match digest_hex(digest.as_str()) {
            Some(hex) => Step::OpenBlob { digest, hex },
            None => Step::Done(not_found()),
        },
        Route::Unknown => Step::Done(not_found()),
    }
}

/// Decides the step after reading `index.json`: `index` is its text, or
/// `None` where it could not be read.
pub fn after_index(index: Option<&str>, name: &str, reference: &str) -> (r: Step)
    ensures
        r@ == index_step(
            match index {
                Some(t) => Some(t@),
                None => None,
            },
            name@,
            reference@,
        ),
{
    let text = match index {
        Some(t) => t,
        None => return Step::Done(not_found()),
    };
    let entries = match parse_index(text) {
        Some(es) => es,
        None => return Step::Done(not_found()),
    };
    match find_manifest(&entries, name, reference) {
        Some(hex) => Step::OpenManifest { hex },
        None => Step::Done(not_found()),
    }
}

/// The reply for manifest blob `hex`: `size` is the blob file's length
/// where it is a regular file, `None` where it is missing or is not one.
pub fn manifest_found(hex: &str, size: Option<u64>) -> (r: Reply)
    ensures
        r@ == manifest_step(hex@, size),
{
    match size {
        None => not_found(),
        Some(n) => {
            let mut length = String::new();
            push_decimal(&mut length, n);
            let mut headers: Vec<Header> = Vec::new();
            headers.push(header("Content-Type", text(OCI_MANIFEST_TYPE)));
            headers.push(header("Content-Length", length));
            headers.push(header("Docker-Content-Digest", sha256_digest_text(hex)));
            headers.push(header("Etag", sha256_digest_text(hex)));
            headers.push(header(API_VERSION_HEADER, text(API_VERSION)));
            let r = Reply { status: 200, headers, body: Body::Manifest(text(hex)) };
            assert(r@.headers =~= manifest_reply(hex@, n).headers);
            r
        },
    }
}

/// The reply for blob `hex`, asked for as `digest`: `found` tells whether
/// the blob file could be opened.
pub fn blob_found(digest: &str, hex: &str, found: bool) -> (r: Reply)
    ensures
        r@ == blob_step(digest@, hex@, found),
{
    if !found {
        return not_found();
    }
    let mut headers: Vec<Header> = Vec::new();
    headers.push(header("Content-Type", text("application/octet-stream")));
    headers.push(header("Docker-Content-Digest", text(digest)));
    headers.push(header("Etag", text(digest)));
    headers.push(header(API_VERSION_HEADER, text(API_VERSION)));
    headers.push(header("Cache-Control", text("max-age=31536000")));
    let r = Reply { status: 200, headers, body: Body::Blob(text(hex)) };
    assert(r@.headers =~= blob_reply(digest@, hex@).headers);
    r
}

} // verus!

verus! {

/// The reply to a request with method `method` for path `path`, against an
/// image layout whose `index.json` reads `index` (`None` where it cannot be
/// read) and whose regular blob files `blobs/sha256/<hex>` have the sizes
/// that `blobs` maps each `<hex>` to.
pub open spec fn serve(
    method: Method,
    path: Seq<char>,
    index: Option<Seq<char>>,
    blobs: Map<Seq<char>, u64>,
) -> ReplyView {
    let size_of = |hex: Seq<char>|
        if blobs.contains_key(hex) {
            Some(blobs[hex])
        } else {
            None
        };
    match begin_step(method, path) {
        StepView::Done(r) => r,
        StepView::ReadIndex { name, reference } => match index_step(index, name, reference) {
            StepView::OpenManifest { hex } => manifest_step(hex, size_of(hex)),
            StepView::Done(r) => r,
            _ => not_found_reply(),
        },
        StepView::OpenManifest { hex } => manifest_step(hex, size_of(hex)),
        StepView::OpenBlob { digest, hex } => blob_step(digest, hex, blobs.contains_key(hex)),
    }
}

pub open spec fn has_header(r: ReplyView, name: Seq<char>, value: Seq<char>) -> bool {
    r.headers.contains((name, value))
}

/// Every successful reply names the API version; a manifest is always
/// served with the OCI manifest media type; a blob with the octet-stream
/// type and a cache lifetime of one year.
pub open spec fn follows_header_rules(r: ReplyView) -> bool {
    &&& r.status == 200 ==> has_header(r, API_VERSION_HEADER@, API_VERSION@)
    &&& (r.status == 200 && r.body is Manifest) ==> has_header(
        r,
        "Content-Type"@,
        OCI_MANIFEST_TYPE@,
    )
    &&& (r.status == 200 && r.body is Blob) ==> has_header(
        r,
        "Content-Type"@,
        "application/octet-stream"@,
    ) && has_header(r, "Cache-Control"@, "max-age=31536000"@)
}

/// Whatever the request and whatever the image layout holds, every reply
/// keeps the header rules.
pub proof fn lemma_header_rules(
    method: Method,
    path: Seq<char>,
    index: Option<Seq<char>>,
    blobs: Map<Seq<char>, u64>,
)
    ensures
        follows_header_rules(serve(method, path, index, blobs)),
{
    let r = serve(method, path, index, blobs);
    if r == probe_reply() {
        assert(r.headers[1] == api_version_header());
    }
    if r.body is Manifest && r.status == 200 {
        let hex = r.body->Manifest_0;
        let n = choose|n: u64| r == manifest_reply(hex, n);
        assert(r.headers[0] == ("Content-Type"@, OCI_MANIFEST_TYPE@));
        assert(r.headers[4] == api_version_header());
    }
    if r.body is Blob && r.status == 200 {
        assert(r.headers[0] == ("Content-Type"@, "application/octet-stream"@));
        assert(r.headers[3] == api_version_header());
        assert(r.headers[4] == ("Cache-Control"@, "max-age=31536000"@));
    }
}

} // verus!

verus! {

/// `/v2/<name>/manifests/sha256:<hex>`.
pub open spec fn digest_manifest_path(name: Seq<char>, hex: Seq<char>) -> Seq<char> {
    v2_prefix() + name + manifests_token() + sha256_prefix() + hex
}

/// A manifest asked for by digest is the blob file of that digest, under
/// any repository name and whether or not `index.json` lists it.
pub proof fn lemma_digest_reference(
    method: Method,
    name: Seq<char>,
    hex: Seq<char>,
    index: Option<Seq<char>>,
    blobs: Map<Seq<char>, u64>,
)
    requires
        method != Method::Other,
        name.len() > 0,
        hex.len() > 0,
        all_hex(hex),
        blobs.contains_key(hex),
    ensures
        begin_step(method, digest_manifest_path(name, hex)) == (StepView::OpenManifest { hex }),
        serve(method, digest_manifest_path(name, hex), index, blobs) == manifest_reply(
            hex,
            blobs[hex],
        ),
{
    let reference = sha256_prefix() + hex;
    let p = digest_manifest_path(name, hex);
    assert(p =~= v2_prefix() + name + manifests_token() + reference);
    let k: int = 4 + name.len() as int;
    assert(p.subrange(k, k + 11) =~= manifests_token());
    assert(token_at(p, k));
    assert forall|j: int| k < j < p.len() implies !token_at(p, j) by {
        if token_at(p, j) {
            let tok = if occurs_at(p, j, manifests_token()) {
                manifests_token()
            } else {
                blobs_token()
            };
            assert(p.subrange(j, j + tok.len())[0] == p[j]);
            assert(p.subrange(j, j + tok.len())[1] == p[j + 1]);
            assert(p[j] == '/');
            assert(p[j + 1] == 'm' || p[j + 1] == 'b');
            if j < k + 11 {
                assert(p[j] == manifests_token()[j - k]);
                assert(p[j + 1] == reference[0]);
            } else if j < k + 18 {
                assert(p[j] == reference[j - k - 11]);
            } else {
                assert(p[j] == hex[j - k - 18]);
                assert(is_hex_char(hex[j - k - 18]));
            }
        }
    }
    assert(is_last_token(p, k));
    let c = choose|c: int| is_last_token(p, c);
    assert(c == k) by {
        if c < k {
            assert(!token_at(p, k));
        } else if c > k {
            assert(!token_at(p, c));
        }
    }
    assert(p.take(4) =~= v2_prefix());
    assert(p.skip(k + 11) =~= reference);
    assert(p.subrange(4, k) =~= name);
    assert(!reference.contains('/')) by {
        if reference.contains('/') {
            let m = choose|m: int| 0 <= m < reference.len() && reference[m] == '/';
            if m >= 7 {
                assert(reference[m] == hex[m - 7]);
                assert(is_hex_char(hex[m - 7]));
            }
        }
    }
    assert(p.len() > 4);
    assert(p != v2_root() && p != v2_prefix());
    assert(reference.take(7) =~= sha256_prefix());
    assert(reference.skip(7) =~= hex);
    assert(route_of(method, p) == RouteView::Manifest { name, reference });
}

} // verus!

verus! {

/// A reply is a function of the request and of the layout alone (`serve`
/// takes nothing else), so repeating a request against the same layout
/// repeats its reply exactly; and a reply that serves a blob or a manifest
/// announces one and the same digest as `Docker-Content-Digest` and as
/// `Etag`.
pub proof fn lemma_repeatable(
    method: Method,
    path: Seq<char>,
    index: Option<Seq<char>>,
    blobs: Map<Seq<char>, u64>,
    value: Seq<char>,
)
    ensures
        ({
            let r = serve(method, path, index, blobs);
            (r.body is Manifest || r.body is Blob) ==> (has_header(
                r,
                "Docker-Content-Digest"@,
                value,
            ) <==> has_header(r, "Etag"@, value))
        }),
{
    reveal_strlit("Docker-Content-Digest");
    reveal_strlit("Etag");
    reveal_strlit("Content-Type");
    reveal_strlit("Content-Length");
    reveal_strlit("Docker-Distribution-Api-Version");
    reveal_strlit("Cache-Control");
    let r = serve(method, path, index, blobs);
    assert(API_VERSION_HEADER@ == "Docker-Distribution-Api-Version"@);
    assert("Etag"@.len() == 4);
    assert("Docker-Content-Digest"@.len() == 21);
    assert("Content-Type"@.len() == 12);
    assert("Content-Length"@.len() == 14);
    assert("Cache-Control"@.len() == 13);
    assert("Docker-Distribution-Api-Version"@.len() == 31);
    if r.body is Manifest {
        let hex = r.body->Manifest_0;
        let n = choose|n: u64| r == manifest_reply(hex, n);
        if has_header(r, "Docker-Content-Digest"@, value) {
            let i = choose|i: int| 0 <= i < r.headers.len() && r.headers[i] == ("Docker-Content-Digest"@, value);
            assert(i == 2);
            assert(r.headers[3] == ("Etag"@, value));
        }
        if has_header(r, "Etag"@, value) {
            let i = choose|i: int| 0 <= i < r.headers.len() && r.headers[i] == ("Etag"@, value);
            assert(i == 3);
            assert(r.headers[2] == ("Docker-Content-Digest"@, value));
        }
    }
    if r.body is Blob {
        let (d, h) = choose|d: Seq<char>, h: Seq<char>| r == blob_reply(d, h);
        if has_header(r, "Docker-Content-Digest"@, value) {
            let i = choose|i: int| 0 <= i < r.headers.len() && r.headers[i] == ("Docker-Content-Digest"@, value);
            assert(i == 1);
            assert(r.headers[2] == ("Etag"@, value));
        }
        if has_header(r, "Etag"@, value) {
            let i = choose|i: int| 0 <= i < r.headers.len() && r.headers[i] == ("Etag"@, value);
            assert(i == 2);
            assert(r.headers[1] == ("Docker-Content-Digest"@, value));
        }
    }
}

} // verus!
