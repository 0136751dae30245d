use vstd::prelude::*;
use vstd::string::StringExecFns;

use crate::json::{json_member, json_parse, json_view, parse_json, Json};
use crate::text::{chars_of, hex_char, is_hex_char};

verus! {

/// The annotation of an index entry that names the image it stands for,
/// as `<name>:<tag>`.
pub const BASE_NAME_ANNOTATION: &'static str = "org.opencontainers.image.base.name";

/// The prefix of a SHA-256 content digest.
pub open spec fn sha256_prefix() -> Seq<char> {
    seq!['s', 'h', 'a', '2', '5', '6', ':']
}

pub open spec fn all_hex(h: Seq<char>) -> bool {
    forall|i: int| 0 <= i < h.len() ==> is_hex_char(#[trigger] h[i])
}

/// The hex part of a digest of the form `sha256:<hex>`, where `<hex>` is one
/// or more hexadecimal digits of either case; `None` for anything else.
pub open spec fn sha256_hex(d: Seq<char>) -> Option<Seq<char>> {
    if d.len() > 7 && d.take(7) == sha256_prefix() && all_hex(d.skip(7)) {
        Some(d.skip(7))
    } else {
        None
    }
}

/// The hex part of a digest of the form `sha256:<hex>`.
pub fn digest_hex(d: &str) -> (r: Option<String>)
    ensures
        match r {
            Some(h) => sha256_hex(d@) == Some(h@),
            None => sha256_hex(d@) is None,
        },
{
    let cs = chars_of(d);
    let n = cs.len();
    if n <= 7 || cs[0] != 's' || cs[1] != 'h' || cs[2] != 'a' || cs[3] != '2' || cs[4] != '5'
        || cs[5] != '6' || cs[6] != ':' {
        proof {
            if n > 7 {
                assert(d@.take(7)[0] == d@[0]);
                assert(d@.take(7)[1] == d@[1]);
                assert(d@.take(7)[2] == d@[2]);
                assert(d@.take(7)[3] == d@[3]);
                assert(d@.take(7)[4] == d@[4]);
                assert(d@.take(7)[5] == d@[5]);
                assert(d@.take(7)[6] == d@[6]);
            }
        }
        return None;
    }
    assert(d@.take(7) =~= sha256_prefix());
    let mut i: usize = 7;
    while i < n
        invariant
            cs@ == d@,
            n == d@.len(),
            7 <= i <= n,
            forall|j: int| 7 <= j < i ==> is_hex_char(#[trigger] d@[j]),
        decreases n - i,
    {
        if !hex_char(cs[i]) {
            assert(d@.skip(7)[i - 7] == d@[i as int]);
            return None;
        }
        i = i + 1;
    }
    assert forall|j: int| 0 <= j < d@.skip(7).len() implies is_hex_char(#[trigger] d@.skip(7)[j]) by {
        assert(d@.skip(7)[j] == d@[j + 7]);
    }
    Some(d.substring_char(7, n).to_owned())
}

/// The part of an entry of `index.json` that resolving a tag reads.
pub struct IndexEntry {
    /// The entry's `digest`, where it is a string.
    pub digest: Option<String>,
    /// The entry's base-name annotation, where it is a string.
    pub base_name: Option<String>,
}

pub struct IndexEntryView {
    pub digest: Option<Seq<char>>,
    pub base_name: Option<Seq<char>>,
}

pub open spec fn opt_view(o: Option<String>) -> Option<Seq<char>> {
    match o {
        Some(s) => Some(s@),
        None => None,
    }
}

impl View for IndexEntry {
    type V = IndexEntryView;

    open spec fn view(&self) -> IndexEntryView {
        IndexEntryView { digest: opt_view(self.digest), base_name: opt_view(self.base_name) }
    }
}

pub open spec fn entry_views(es: Seq<IndexEntry>) -> Seq<IndexEntryView> {
    es.map_values(|e: IndexEntry| e@)
}

/// The member `key` of an object.
pub open spec fn member(j: Json, key: Seq<char>) -> Option<Json> {
    match j {
        Json::Object(m) => if m.contains_key(key) {
            Some(m[key])
        } else {
            None
        },
        _ => None,
    }
}

/// The text of a string member.
pub open spec fn text_member(j: Json, key: Seq<char>) -> Option<Seq<char>> {
    match member(j, key) {
        Some(Json::Str(s)) => Some(s),
        _ => None,
    }
}

/// What resolving reads of one entry of the index's `manifests`.
pub open spec fn entry_of(j: Json) -> IndexEntryView {
    IndexEntryView {
        digest: text_member(j, "digest"@),
        base_name: match member(j, "annotations"@) {
            Some(a) => text_member(a, BASE_NAME_ANNOTATION@),
            None => None,
        },
    }
}

/// The entries of the image index with text `text`: `None` where the text
/// is not JSON or has no `manifests` array.
pub open spec fn index_entries(text: Seq<char>) -> Option<Seq<IndexEntryView>> {
    match json_parse(text) {
        Some(doc) => match member(doc, "manifests"@) {
            Some(Json::Array(es)) => Some(es.map_values(|e: Json| entry_of(e))),
            _ => None,
        },
        None => None,
    }
}

fn read_text_member(v: &serde_json::Value, key: &str) -> (r: Option<String>)
    ensures
        opt_view(r) == text_member(json_view(*v), key@),
{
    match json_member(v, key) {
        Some(m) => match m.as_str() {
            Some(t) => Some(t.to_owned()),
            None => None,
        },
        None => None,
    }
}

fn read_entry(v: &serde_json::Value) -> (r: IndexEntry)
    ensures
        r@ == entry_of(json_view(*v)),
{
    let digest = read_text_member(v, "digest");
    let base_name = match json_member(v, "annotations") {
        Some(a) => read_text_member(a, BASE_NAME_ANNOTATION),
        None => None,
    };
    IndexEntry { digest, base_name }
}

/// Reads the entries of an image index from its text.
pub fn parse_index(text: &str) -> (r: Option<Vec<IndexEntry>>)
    ensures
        match r {
            Some(es) => index_entries(text@) == Some(entry_views(es@)),
            None => index_entries(text@) is None,
        },
{
    let doc = match parse_json(text) {
        Some(doc) => doc,
        None => return None,
    };
    let manifests = match json_member(&doc, "manifests") {
        Some(m) => m,
        None => return None,
    };
    let items = match manifests.as_array() {
        Some(items) => items,
        None => return None,
    };
    let ghost js = match json_view(*manifests) {
        Json::Array(s) => s,
        _ => Seq::empty(),
    };
    let mut out: Vec<IndexEntry> = Vec::new();
    let mut i: usize = 0;
    while i < items.len()
        invariant
            i <= items@.len(),
            items@.len() == js.len(),
            forall|k: int| 0 <= k < js.len() ==> json_view(#[trigger] items@[k]) == js[k],
            entry_views(out@) =~= js.take(i as int).map_values(|e: Json| entry_of(e)),
        decreases items@.len() - i,
    {
        let e = read_entry(&items[i]);
        let ghost before = out@;
        let ghost ev = e@;
        out.push(e);
        proof {
            assert(js.take(i + 1) =~= js.take(i as int).push(js[i as int]));
            assert(entry_views(out@) =~= entry_views(before).push(ev));
        }
        i = i + 1;
    }
    assert(js.take(i as int) =~= js);
    Some(out)
}

} // verus!

verus! {

/// The annotation value that a request for tag `reference` of repository
/// `name` looks for: `<name>:<reference>`.
pub open spec fn probe_of(name: Seq<char>, reference: Seq<char>) -> Seq<char> {
    name + seq![':'] + reference
}

/// The hex digest of the manifest an entry stands for, where its digest has
/// the form `sha256:<hex>`.
pub open spec fn entry_hex(e: IndexEntryView) -> Option<Seq<char>> {
    match e.digest {
        Some(d) => sha256_hex(d),
        None => None,
    }
}

/// Entry `e` answers the annotation value `probe`. An entry without the
/// annotation, or without a well-formed digest, answers none.
pub open spec fn entry_matches(e: IndexEntryView, probe: Seq<char>) -> bool {
    e.base_name == Some(probe) && entry_hex(e) is Some
}

/// The hex digest of the first entry, in document order, that answers
/// `probe`.
pub open spec fn find_tag(es: Seq<IndexEntryView>, probe: Seq<char>) -> Option<Seq<char>>
    decreases es.len(),
{
    if es.len() == 0 {
        None
    } else if entry_matches(es[0], probe) {
        entry_hex(es[0])
    } else {
        find_tag(es.drop_first(), probe)
    }
}

/// The hex digest of the manifest that the index lists for tag `reference`
/// of repository `name`: the first entry whose base-name annotation is
/// `<name>:<reference>` and whose digest is well formed.
pub fn find_manifest(entries: &Vec<IndexEntry>, name: &str, reference: &str) -> (r: Option<String>)
    ensures
        opt_view(r) == find_tag(entry_views(entries@), probe_of(name@, reference@)),
{
    let ghost es = entry_views(entries@);
    let mut probe = String::from_str(name);
    probe.append(":");
    probe.append(reference);
    proof {
        reveal_strlit(":");
        assert(probe@ =~= probe_of(name@, reference@));
    }
    let mut i: usize = 0;
    assert(es.skip(0) =~= es);
    while i < entries.len()
        invariant
            es == entry_views(entries@),
            probe@ == probe_of(name@, reference@),
            i <= entries@.len(),
            find_tag(es, probe@) == find_tag(es.skip(i as int), probe@),
        decreases entries@.len() - i,
    {
        let e = &entries[i];
        assert(es.skip(i as int)[0] == e@);
        assert(es.skip(i as int).drop_first() =~= es.skip(i + 1));
        if let Some(b) = &e.base_name {
            if *b == probe {
                if let Some(d) = &e.digest {
                    if let Some(h) = digest_hex(d.as_str()) {
                        return Some(h);
                    }
                }
            }
        }
        i = i + 1;
    }
    None
}

/// Tag resolution is decided by document order: the first entry that
/// answers the probe decides, whatever entries follow it.
pub proof fn lemma_first_match_wins(es: Seq<IndexEntryView>, probe: Seq<char>, i: int)
    requires
        0 <= i < es.len(),
        entry_matches(es[i], probe),
        forall|j: int| 0 <= j < i ==> !entry_matches(#[trigger] es[j], probe),
    ensures
        find_tag(es, probe) == entry_hex(es[i]),
    decreases i,
{
    if i > 0 {
        let rest = es.drop_first();
        assert forall|j: int| 0 <= j < i - 1 implies !entry_matches(#[trigger] rest[j], probe) by {
            assert(rest[j] == es[j + 1]);
        }
        assert(!entry_matches(es[0], probe));
        lemma_first_match_wins(rest, probe, i - 1);
    }
}

} // verus!

verus! {

/// `s` begins with `sha256:`.
pub open spec fn has_sha256_prefix(s: Seq<char>) -> bool {
    s.len() >= 7 && s.take(7) == sha256_prefix()
}

/// Whether a reference names a manifest by digest rather than by tag.
pub fn is_digest_reference(s: &str) -> (r: bool)
    ensures
        r == has_sha256_prefix(s@),
{
    let cs = chars_of(s);
    if cs.len() < 7 {
        return false;
    }
    let r = cs[0] == 's' && cs[1] == 'h' && cs[2] == 'a' && cs[3] == '2' && cs[4] == '5' && cs[5]
        == '6' && cs[6] == ':';
    proof {
        if r {
            assert(s@.take(7) =~= sha256_prefix());
        } else {
            assert(s@.take(7)[0] == s@[0]);
            assert(s@.take(7)[1] == s@[1]);
            assert(s@.take(7)[2] == s@[2]);
            assert(s@.take(7)[3] == s@[3]);
            assert(s@.take(7)[4] == s@[4]);
            assert(s@.take(7)[5] == s@[5]);
            assert(s@.take(7)[6] == s@[6]);
        }
    }
    r
}

} // verus!
