use std::collections::HashMap;

use injector::layout::{digest_hex, find_manifest, is_digest_reference, parse_index};
use injector::reply::{after_index, begin, blob_found, manifest_found, Body, Reply, Step};
use injector::route::{route, Method, Route};
use injector::text::push_decimal;

const MANIFEST_HEX: &str = "DEAD0000000000000000000000000000000000000000000000000000000BEEF";
const CONFIG_HEX: &str = "CAFE000000000000000000000000000000000000000000000000000000F00D";

/// What a client receives: status, headers and body bytes.
struct Received {
    status: u16,
    headers: Vec<(String, String)>,
    body: Vec<u8>,
}

impl Received {
    fn header(&self, name: &str) -> Option<&str> {
        self.headers.iter().find(|(n, _)| n == name).map(|(_, v)| v.as_str())
    }
}

/// An image layout held in memory: `index.json` and the blob files.
struct Layout {
    index: Option<String>,
    blobs: HashMap<String, Vec<u8>>,
}

impl Layout {
    fn doom_game(annotation: &str) -> Layout {
        let index = format!(
            "{{\"schemaVersion\":2,\"manifests\":[{{\"mediaType\":\"application/vnd.oci.image.manifest.v1+json\",\"digest\":\"sha256:{}\",\"size\":14,\"annotations\":{{\"org.opencontainers.image.base.name\":\"{}\"}}}}]}}",
            MANIFEST_HEX, annotation
        );
        let mut blobs = HashMap::new();
        blobs.insert(MANIFEST_HEX.to_string(), b"{\"manifest\":1}".to_vec());
        blobs.insert(CONFIG_HEX.to_string(), b"config bytes".to_vec());
        Layout { index: Some(index), blobs }
    }

    fn finish(&self, reply: Reply) -> Received {
        let body = match reply.body {
            Body::Empty => Vec::new(),
            Body::Text(t) => t.into_bytes(),
            Body::Manifest(hex) | Body::Blob(hex) => self.blobs[&hex].clone(),
        };
        Received {
            status: reply.status,
            headers: reply.headers.into_iter().map(|h| (h.name, h.value)).collect(),
            body,
        }
    }

    fn manifest(&self, hex: String) -> Received {
        let size = self.blobs.get(&hex).map(|b| b.len() as u64);
        self.finish(manifest_found(&hex, size))
    }

    fn request(&self, method: Method, path: &str) -> Received {
        match begin(method, path) {
            Step::Done(reply) => self.finish(reply),
            Step::ReadIndex { name, reference } => {
                match after_index(self.index.as_deref(), &name, &reference) {
                    Step::Done(reply) => self.finish(reply),
                    Step::OpenManifest { hex } => self.manifest(hex),
                    _ => panic!("unexpected step after reading the index"),
                }
            }
            Step::OpenManifest { hex } => self.manifest(hex),
            Step::OpenBlob { digest, hex } => {
                let found = self.blobs.contains_key(&hex);
                self.finish(blob_found(&digest, &hex, found))
            }
        }
    }

    fn get(&self, path: &str) -> Received {
        self.request(Method::Get, path)
    }
}

fn manifest_route(name: &str, reference: &str) -> Route {
    Route::Manifest { name: name.to_string(), reference: reference.to_string() }
}

fn same_route(a: &Route, b: &Route) -> bool {
    match (a, b) {
        (Route::ApiProbe, Route::ApiProbe) | (Route::Unknown, Route::Unknown) => true,
        (
            Route::Manifest { name: n1, reference: r1 },
            Route::Manifest { name: n2, reference: r2 },
        ) => n1 == n2 && r1 == r2,
        (Route::Blob { name: n1, digest: d1 }, Route::Blob { name: n2, digest: d2 }) => {
            n1 == n2 && d1 == d2
        }
        _ => false,
    }
}

#[test]
fn api_probe_answers_with_version_headers() {
    let layout = Layout::doom_game("doom-game:0.0.1");
    for path in ["/v2/", "/v2"] {
        let r = layout.get(path);
        assert_eq!(r.status, 200);
        assert_eq!(r.body, b"{}".to_vec());
        assert_eq!(r.header("Content-Type"), Some("application/json; charset=utf-8"));
        assert_eq!(r.header("Docker-Distribution-Api-Version"), Some("registry/2.0"));
        assert_eq!(r.header("X-Content-Type-Options"), Some("nosniff"));
    }
}

#[test]
fn happy_path_tag_resolves_to_manifest() {
    let layout = Layout::doom_game("doom-game:0.0.1");
    let r = layout.get("/v2/doom-game/manifests/0.0.1");
    assert_eq!(r.status, 200);
    assert_eq!(r.body, layout.blobs[MANIFEST_HEX]);
    let digest = format!("sha256:{}", MANIFEST_HEX);
    assert_eq!(r.header("Docker-Content-Digest"), Some(digest.as_str()));
    assert_eq!(r.header("Etag"), Some(digest.as_str()));
    assert_eq!(r.header("Content-Type"), Some("application/vnd.oci.image.manifest.v1+json"));
    assert_eq!(r.header("Content-Length"), Some("14"));
    assert_eq!(r.header("Docker-Distribution-Api-Version"), Some("registry/2.0"));
}

#[test]
fn digest_reference_ignores_name_and_index() {
    let layout = Layout::doom_game("doom-game:0.0.1");
    let by_tag = layout.get("/v2/doom-game/manifests/0.0.1");
    let path = format!("/v2/anything/you/like/manifests/sha256:{}", MANIFEST_HEX);
    let by_digest = layout.get(&path);
    assert_eq!(by_digest.status, 200);
    assert_eq!(by_digest.body, by_tag.body);
    // a blob that index.json does not list is served as a manifest too
    let path = format!("/v2/x/manifests/sha256:{}", CONFIG_HEX);
    let unlisted = layout.get(&path);
    assert_eq!(unlisted.status, 200);
    assert_eq!(unlisted.body, b"config bytes".to_vec());
    // even without an index
    let bare = Layout { index: None, blobs: layout.blobs.clone() };
    let path = format!("/v2/anything/you/like/manifests/sha256:{}", MANIFEST_HEX);
    assert_eq!(bare.get(&path).status, 200);
}

#[test]
fn unknown_tag_is_not_found() {
    let layout = Layout::doom_game("doom-game:0.0.1");
    let r = layout.get("/v2/doom-game/manifests/9.9.9");
    assert_eq!(r.status, 404);
    assert_eq!(r.body, b"Not Found".to_vec());
}

#[test]
fn deep_repository_name_resolves() {
    let layout = Layout::doom_game("ns1/ns2/ns3/img:v1");
    let r = layout.get("/v2/ns1/ns2/ns3/img/manifests/v1");
    assert_eq!(r.status, 200);
    assert_eq!(r.body, layout.blobs[MANIFEST_HEX]);
}

#[test]
fn blob_fetch_serves_file() {
    let layout = Layout::doom_game("doom-game:0.0.1");
    let digest = format!("sha256:{}", CONFIG_HEX);
    let r = layout.get(&format!("/v2/doom-game/blobs/{}", digest));
    assert_eq!(r.status, 200);
    assert_eq!(r.body, b"config bytes".to_vec());
    assert_eq!(r.header("Content-Type"), Some("application/octet-stream"));
    assert_eq!(r.header("Docker-Content-Digest"), Some(digest.as_str()));
    assert_eq!(r.header("Etag"), Some(digest.as_str()));
    assert_eq!(r.header("Cache-Control"), Some("max-age=31536000"));
    assert_eq!(r.header("Docker-Distribution-Api-Version"), Some("registry/2.0"));
}

#[test]
fn missing_blob_is_not_found() {
    let layout = Layout::doom_game("doom-game:0.0.1");
    assert_eq!(layout.get("/v2/doom-game/blobs/sha256:0123abcd").status, 404);
    assert_eq!(layout.get("/v2/doom-game/blobs/md5:0123abcd").status, 404);
    assert_eq!(layout.get("/v2/doom-game/blobs/sha256:../../etc").status, 404);
    let path = "/v2/doom-game/manifests/sha256:0123abcd";
    assert_eq!(layout.get(path).status, 404);
}

#[test]
fn repeated_requests_get_identical_replies() {
    let layout = Layout::doom_game("doom-game:0.0.1");
    let blob = format!("/v2/doom-game/blobs/sha256:{}", CONFIG_HEX);
    for path in ["/v2/doom-game/manifests/0.0.1", blob.as_str()] {
        let first = layout.get(path);
        for _ in 0..3 {
            let again = layout.get(path);
            assert_eq!(again.status, first.status);
            assert_eq!(again.body, first.body);
            assert_eq!(again.headers, first.headers);
        }
        assert_eq!(first.header("Docker-Content-Digest"), first.header("Etag"));
    }
}

#[test]
fn head_is_answered_like_get() {
    let layout = Layout::doom_game("doom-game:0.0.1");
    let get = layout.get("/v2/doom-game/manifests/0.0.1");
    let head = layout.request(Method::Head, "/v2/doom-game/manifests/0.0.1");
    assert_eq!(head.status, 200);
    assert_eq!(head.headers, get.headers);
    assert_eq!(head.body, get.body);
    let other = layout.request(Method::Other, "/v2/doom-game/manifests/0.0.1");
    assert_eq!(other.status, 404);
}

#[test]
fn other_paths_are_not_found() {
    let layout = Layout::doom_game("doom-game:0.0.1");
    for path in ["/", "/v1/doom-game/manifests/0.0.1", "/v2/doom-game/tags/list", "/v2/doom-game"] {
        assert_eq!(layout.get(path).status, 404);
    }
}

#[test]
fn routes_split_at_rightmost_token() {
    assert!(same_route(&route(Method::Get, "/v2"), &Route::ApiProbe));
    assert!(same_route(&route(Method::Head, "/v2/"), &Route::ApiProbe));
    assert!(same_route(
        &route(Method::Get, "/v2/doom-game/manifests/0.0.1"),
        &manifest_route("doom-game", "0.0.1")
    ));
    assert!(same_route(
        &route(Method::Get, "/v2/a/blobs/b/manifests/t"),
        &manifest_route("a/blobs/b", "t")
    ));
    assert!(same_route(
        &route(Method::Get, "/v2/a/manifests/b/blobs/sha256:01"),
        &Route::Blob { name: "a/manifests/b".to_string(), digest: "sha256:01".to_string() }
    ));
    assert!(same_route(&route(Method::Get, "/v2/manifests/x"), &Route::Unknown));
    assert!(same_route(&route(Method::Get, "/v2/a/manifests/"), &Route::Unknown));
    assert!(same_route(&route(Method::Get, "/v2/a/manifests/x/y"), &Route::Unknown));
    assert!(same_route(&route(Method::Get, "/v3/a/manifests/x"), &Route::Unknown));
    assert!(same_route(&route(Method::Other, "/v2/"), &Route::Unknown));
}

#[test]
fn index_entries_are_read_from_json() {
    let text = "{\"manifests\":[{\"digest\":\"sha256:ab\",\"annotations\":{\"org.opencontainers.image.base.name\":\"a:1\"}},{\"digest\":7},{\"annotations\":{}}]}";
    let entries = parse_index(text).expect("index should parse");
    assert_eq!(entries.len(), 3);
    assert_eq!(entries[0].digest.as_deref(), Some("sha256:ab"));
    assert_eq!(entries[0].base_name.as_deref(), Some("a:1"));
    assert_eq!(entries[1].digest, None);
    assert_eq!(entries[1].base_name, None);
    assert_eq!(entries[2].base_name, None);
    assert!(parse_index("not json").is_none());
    assert!(parse_index("{\"manifests\":{}}").is_none());
    assert!(parse_index("{}").is_none());
    assert_eq!(parse_index("{\"manifests\":[]}").map(|e| e.len()), Some(0));
}

#[test]
fn first_matching_entry_wins() {
    let text = "{\"manifests\":[\
        {\"digest\":\"sha256:not-hex\",\"annotations\":{\"org.opencontainers.image.base.name\":\"img:v1\"}},\
        {\"digest\":\"sha256:11\"},\
        {\"digest\":\"sha256:22\",\"annotations\":{\"org.opencontainers.image.base.name\":\"img:v1\"}},\
        {\"digest\":\"sha256:33\",\"annotations\":{\"org.opencontainers.image.base.name\":\"img:v1\"}}]}";
    let entries = parse_index(text).unwrap();
    assert_eq!(find_manifest(&entries, "img", "v1"), Some("22".to_string()));
    assert_eq!(find_manifest(&entries, "img", "v2"), None);
    match after_index(Some(text), "img", "v1") {
        Step::OpenManifest { hex } => assert_eq!(hex, "22"),
        _ => panic!("expected the manifest of the first match"),
    }
}

#[test]
fn unreadable_index_is_not_found() {
    for index in [None, Some("garbage"), Some("{\"manifests\":3}")] {
        match after_index(index, "doom-game", "0.0.1") {
            Step::Done(reply) => assert_eq!(reply.status, 404),
            _ => panic!("expected not found"),
        }
    }
}

#[test]
fn manifest_reply_states_length() {
    let r = manifest_found("abc", Some(1234567890));
    assert_eq!(r.status, 200);
    assert_eq!(r.headers[1].name, "Content-Length");
    assert_eq!(r.headers[1].value, "1234567890");
    assert_eq!(manifest_found("abc", Some(0)).headers[1].value, "0");
    assert_eq!(manifest_found("abc", None).status, 404);
    assert_eq!(blob_found("sha256:abc", "abc", false).status, 404);
}

#[test]
fn decimal_text() {
    let mut s = String::from("n=");
    push_decimal(&mut s, 0);
    assert_eq!(s, "n=0");
    let mut s = String::new();
    push_decimal(&mut s, u64::MAX);
    assert_eq!(s, "18446744073709551615");
    let mut s = String::new();
    push_decimal(&mut s, 1000);
    assert_eq!(s, "1000");
}

#[test]
fn digest_references() {
    assert_eq!(digest_hex("sha256:ABCdef0189"), Some("ABCdef0189".to_string()));
    assert_eq!(digest_hex("sha256:"), None);
    assert_eq!(digest_hex("sha256:xyz"), None);
    assert_eq!(digest_hex("md5:abcd"), None);
    assert_eq!(digest_hex("sha256"), None);
    assert!(is_digest_reference("sha256:xyz"));
    assert!(is_digest_reference("sha256:"));
    assert!(!is_digest_reference("0.0.1"));
    assert!(!is_digest_reference("sha25"));
}
