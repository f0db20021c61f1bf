//! Members looked up in a key-value store, under the prefix of their service.

use vstd::prelude::*;
use vstd::slice::{slice_subrange, slice_to_vec};
use vstd::string::StringExecFns;
use vstd::utf8::{decode_utf8, encode_utf8, is_ascii_chars_encode_utf8, valid_utf8};
use crate::exporter::{
    round,
    target_views,
    Exporter,
    Fetched,
    Request,
    RequestView,
    Target,
    TargetView,
};
use crate::json::{json_document, json_quoted, quote, Json};
use crate::patroni::{DiscoveryError, ExporterResult};
use crate::text::{after_last, lemma_encode_concat, str_from_utf8, tail_after};

verus! {

/// The standard base64 text of bytes, with padding, as the base64 crate writes it.
pub uninterp spec fn base64_text(bytes: Seq<u8>) -> Seq<char>;

/// The bytes that a base64 text stands for, as the base64 crate reads the standard
/// alphabet with padding; none where the text is not of that form.
pub uninterp spec fn base64_bytes(text: Seq<u8>) -> Option<Seq<u8>>;

/// `base64::encode_config_buf` with `base64::STANDARD`, into an empty string: the
/// base64 text of the bytes.
#[verifier::external_body]
fn base64_encode(bytes: &[u8]) -> (r: String)
    ensures
        r@ == base64_text(bytes@),
{
    let mut text = String::new();
    base64::encode_config_buf(bytes, base64::STANDARD, &mut text);
    text
}

/// `base64::decode`: the bytes that the text stands for, or nothing where it is no
/// base64. The crate adds up to seven to the length of the text, and panics where
/// that overflows.
#[verifier::external_body]
fn base64_decode(text: &[u8]) -> (r: Option<Vec<u8>>)
    requires
        text@.len() + 7 <= usize::MAX,
    ensures
        match r {
            Some(bytes) => base64_bytes(text@) == Some(bytes@),
            None => base64_bytes(text@) is None,
        },
{
    base64::decode(text).ok()
}

/// A client of the store.
#[derive(Clone, Debug)]
pub struct EtcdClient {
    url: String,
}

/// A key of the store with its value.
#[derive(Debug)]
pub struct Kv {
    pub key: Vec<u8>,
    pub value: Vec<u8>,
}

/// A key with its value, as mathematics.
pub struct KvView {
    pub key: Seq<u8>,
    pub value: Seq<u8>,
}

impl View for Kv {
    type V = KvView;

    open spec fn view(&self) -> KvView {
        KvView { key: self.key@, value: self.value@ }
    }
}

/// The view of each pair.
pub open spec fn kv_views(kvs: Seq<Kv>) -> Seq<KvView> {
    Seq::new(kvs.len(), |i: int| kvs[i]@)
}

/// Bytes as the store's JSON carries them: a JSON string of their base64 text.
pub open spec fn serialized(bytes: Seq<u8>) -> Seq<char> {
    json_quoted(base64_text(bytes))
}

/// The bytes that a JSON value carries: those of the base64 text, where the value
/// is a text in base64 whose length leaves room for seven more.
pub open spec fn deserialized(value: Json) -> Option<Seq<u8>> {
    match value {
        Json::Text(text) => if encode_utf8(text@).len() + 7 <= usize::MAX {
            base64_bytes(encode_utf8(text@))
        } else {
            None
        },
        _ => None,
    }
}

/// The key under which the members of a service register.
pub open spec fn members_key(service: Seq<char>) -> Seq<u8> {
    encode_utf8("/service/"@ + service + "/members"@)
}

/// The end of the range of keys that begin with `prefix`: the prefix without the
/// bytes 255 at its end, its last byte raised by one. Where nothing is left to
/// raise, the single byte 0, by which the store means that the range has no end.
pub open spec fn end_of_range(prefix: Seq<u8>) -> Seq<u8>
    decreases prefix.len(),
{
    if prefix.len() == 0 {
        seq![0u8]
    } else if prefix.last() == 255 {
        end_of_range(prefix.drop_last())
    } else {
        prefix.drop_last().push((prefix.last() + 1) as u8)
    }
}

/// The body of the range request for the keys that begin with `key`.
pub open spec fn range_body(key: Seq<u8>) -> Seq<char> {
    "{\"key\":"@ + serialized(key) + ",\"range_end\":"@ + serialized(end_of_range(key)) + "}"@
}

/// The bytes under `key` in an item.
pub open spec fn bytes_at(item: Json, key: Seq<char>) -> Option<Seq<u8>> {
    match item.field(key) {
        Some(value) => deserialized(value),
        None => None,
    }
}

/// The pair that an item of `kvs` describes.
pub open spec fn kv_of(item: Json) -> Option<KvView> {
    match (bytes_at(item, "key"@), bytes_at(item, "value"@)) {
        (Some(key), Some(value)) => Some(KvView { key, value }),
        _ => None,
    }
}

/// The pairs that the items describe, where each item describes one.
pub open spec fn kvs_of(items: Seq<Json>) -> Option<Seq<KvView>> {
    if forall|i: int| 0 <= i < items.len() ==> kv_of(#[trigger] items[i]) is Some {
        Some(Seq::new(items.len(), |i: int| kv_of(items[i]).unwrap()))
    } else {
        None
    }
}

/// The pairs of a range response: those under `kvs`, and none where the response
/// is an object without that key or with `null` under it.
pub open spec fn kvs_in(response: Json) -> Option<Seq<KvView>> {
    if response is Object {
        match response.field("kvs"@) {
            None => Some(Seq::empty()),
            Some(Json::Null) => Some(Seq::empty()),
            Some(Json::Array(items)) => kvs_of(items@),
            Some(_) => None,
        }
    } else {
        None
    }
}

/// The URL under `api_url` in the JSON object that a value holds.
pub open spec fn api_url_in(value: Seq<u8>) -> Option<Seq<char>> {
    match json_document(value) {
        Some(entry) => entry.text_at("api_url"@),
        None => None,
    }
}

/// The member that a pair registers: its URL is the value's `api_url`, its name
/// what follows the last `/` of the key, or the URL where the key has no `/`. A
/// pair whose key is not UTF-8, or whose value holds no URL, registers none.
pub open spec fn target_of(kv: KvView) -> Option<TargetView> {
    if valid_utf8(kv.key) {
        match api_url_in(kv.value) {
            Some(url) => Some(
                TargetView {
                    name: match after_last(decode_utf8(kv.key), '/') {
                        Some(tail) => tail,
                        None => url,
                    },
                    url,
                },
            ),
            None => None,
        }
    } else {
        None
    }
}

/// The members that the pairs register, in the order of the pairs.
pub open spec fn targets_of(kvs: Seq<KvView>) -> Seq<TargetView>
    decreases kvs.len(),
{
    if kvs.len() == 0 {
        Seq::empty()
    } else {
        match target_of(kvs.last()) {
            Some(target) => targets_of(kvs.drop_last()).push(target),
            None => targets_of(kvs.drop_last()),
        }
    }
}

/// The members that a range response registers. Without a response the store is
/// unreachable; a response that is no JSON of the expected form is undecodable.
pub open spec fn registered(answer: Option<Fetched>) -> Result<Seq<TargetView>, DiscoveryError> {
    match answer {
        Some(Fetched::Body(body)) => match json_document(body@) {
            Some(response) => match kvs_in(response) {
                Some(kvs) => Ok(targets_of(kvs)),
                None => Err(DiscoveryError::Undecodable),
            },
            None => Err(DiscoveryError::Undecodable),
        },
        _ => Err(DiscoveryError::Unreachable),
    }
}

/// Whether `a` comes before `b` in the order of the store's keys: byte by byte,
/// the shorter of two keys first where one begins the other.
pub open spec fn precedes(a: Seq<u8>, b: Seq<u8>) -> bool
    decreases a.len(),
{
    if b.len() == 0 {
        false
    } else if a.len() == 0 {
        true
    } else if a[0] != b[0] {
        a[0] < b[0]
    } else {
        precedes(a.drop_first(), b.drop_first())
    }
}

/// Whether `key` begins with `prefix`.
pub open spec fn begins_with(key: Seq<u8>, prefix: Seq<u8>) -> bool {
    &&& prefix.len() <= key.len()
    &&& forall|i: int| 0 <= i < prefix.len() ==> key[i] == prefix[i]
}

/// Whether some byte of `prefix` is not 255, so that a key can come after all the
/// keys that begin with `prefix`.
pub open spec fn has_end(prefix: Seq<u8>) -> bool {
    exists|i: int| 0 <= i < prefix.len() && prefix[i] != 255
}

/// Where a byte other than 255 follows the first, the end of the range keeps the
/// first byte.
proof fn lemma_end_keeps_the_first_byte(prefix: Seq<u8>)
    requires
        prefix.len() > 0,
        has_end(prefix.drop_first()),
    ensures
        end_of_range(prefix) == seq![prefix[0]] + end_of_range(prefix.drop_first()),
    decreases prefix.len(),
{
    let rest = prefix.drop_first();
    let at = choose|i: int| 0 <= i < rest.len() && rest[i] != 255;
    assert(prefix.drop_last().drop_first() =~= rest.drop_last());
    if prefix.last() == 255 {
        assert(rest.drop_last()[at] != 255);
        lemma_end_keeps_the_first_byte(prefix.drop_last());
    } else {
        assert(prefix.drop_last().push((prefix.last() + 1) as u8) =~= seq![prefix[0]]
            + rest.drop_last().push((prefix.last() + 1) as u8));
    }
}

/// Where nothing but bytes 255 follows the first byte, the end of the range is the
/// first byte raised by one.
proof fn lemma_end_raises_the_first_byte(prefix: Seq<u8>)
    requires
        prefix.len() > 0,
        prefix[0] != 255,
        !has_end(prefix.drop_first()),
    ensures
        end_of_range(prefix) == seq![(prefix[0] + 1) as u8],
    decreases prefix.len(),
{
    let rest = prefix.drop_first();
    if prefix.len() > 1 {
        assert(rest[rest.len() - 1] == 255);
        assert(prefix.drop_last().drop_first() =~= rest.drop_last());
        lemma_end_raises_the_first_byte(prefix.drop_last());
    }
}

/// Among keys of bytes 255, a key does not come before the prefix exactly if it
/// begins with it.
proof fn lemma_no_key_follows_the_last(prefix: Seq<u8>, key: Seq<u8>)
    requires
        !has_end(prefix),
    ensures
        begins_with(key, prefix) <==> !precedes(key, prefix),
    decreases prefix.len(),
{
    if prefix.len() > 0 && key.len() > 0 {
        lemma_no_key_follows_the_last(prefix.drop_first(), key.drop_first());
        lemma_begins_with_step(prefix, key);
    }
}

/// A key begins with a prefix exactly if their first bytes agree and the rest of
/// the key begins with the rest of the prefix.
proof fn lemma_begins_with_step(prefix: Seq<u8>, key: Seq<u8>)
    requires
        prefix.len() > 0,
        key.len() > 0,
    ensures
        begins_with(key, prefix) <==> key[0] == prefix[0] && begins_with(
            key.drop_first(),
            prefix.drop_first(),
        ),
{
    let rest = prefix.drop_first();
    let tail = key.drop_first();
    if key[0] == prefix[0] && begins_with(tail, rest) {
        assert forall|i: int| 0 <= i < prefix.len() implies key[i] == prefix[i] by {
            if i > 0 {
                assert(tail[i - 1] == rest[i - 1]);
            }
        }
    }
}

/// The range from a prefix to its end holds the keys that begin with the prefix,
/// and no other: a key begins with the prefix exactly if it does not come before
/// the prefix and comes before the end of the range. This holds of every prefix
/// with a byte other than 255.
pub proof fn lemma_range_holds_the_keys_of_the_prefix(prefix: Seq<u8>, key: Seq<u8>)
    requires
        has_end(prefix),
    ensures
        begins_with(key, prefix) <==> !precedes(key, prefix) && precedes(
            key,
            end_of_range(prefix),
        ),
    decreases prefix.len(),
{
    let rest = prefix.drop_first();
    let end = end_of_range(prefix);
    let at = choose|i: int| 0 <= i < prefix.len() && prefix[i] != 255;
    if key.len() > 0 {
        let tail = key.drop_first();
        lemma_begins_with_step(prefix, key);
        if has_end(rest) {
            lemma_end_keeps_the_first_byte(prefix);
            assert(end.drop_first() =~= end_of_range(rest));
            lemma_range_holds_the_keys_of_the_prefix(rest, tail);
        } else {
            if at > 0 {
                assert(rest[at - 1] != 255);
            }
            lemma_end_raises_the_first_byte(prefix);
            lemma_no_key_follows_the_last(rest, tail);
            assert(!precedes(tail, end.drop_first()));
        }
    }
}

/// The range of a service's key ends at the key with its last letter raised by
/// one, `/service/` and the name and `/membert`; the key has a byte other than 255,
/// so that this end closes the range.
pub proof fn lemma_members_range(service: Seq<char>)
    ensures
        has_end(members_key(service)),
        end_of_range(members_key(service)) == encode_utf8("/service/"@ + service + "/membert"@),
{
    let head = "/service/"@ + service;
    let key = members_key(service);
    reveal_strlit("/members");
    reveal_strlit("/membert");
    lemma_encode_concat(head, "/members"@);
    lemma_encode_concat(head, "/membert"@);
    is_ascii_chars_encode_utf8("/members"@);
    is_ascii_chars_encode_utf8("/membert"@);
    assert(key[key.len() - 1] != 255);
}

/// Bytes as a JSON string of their base64 text.
pub fn serialize(bytes: &[u8]) -> (r: String)
    ensures
        r@ == serialized(bytes@),
{
    let text = base64_encode(bytes);
    quote(text.as_str())
}

/// The bytes that a JSON value carries as base64 text.
pub fn deserialize(value: &Json) -> (r: Option<Vec<u8>>)
    ensures
        match r {
            Some(bytes) => deserialized(*value) == Some(bytes@),
            None => deserialized(*value) is None,
        },
{
    match value {
        Json::Text(text) => {
            let bytes = text.as_str().as_bytes();
            if bytes.len() <= usize::MAX - 7 {
                base64_decode(bytes)
            } else {
                None
            }
        },
        _ => None,
    }
}

/// The end of the range of keys that begin with `prefix`.
pub fn range_end(prefix: &[u8]) -> (r: Vec<u8>)
    ensures
        r@ == end_of_range(prefix@),
{
    let mut n: usize = prefix.len();
    assert(prefix@.take(n as int) =~= prefix@);
    while n > 0 && prefix[n - 1] == 255
        invariant
            n <= prefix.len(),
            end_of_range(prefix@) == end_of_range(prefix@.take(n as int)),
        decreases n,
    {
        assert(prefix@.take(n as int).drop_last() =~= prefix@.take(n - 1));
        n -= 1;
    }
    if n == 0 {
        let mut r: Vec<u8> = Vec::new();
        r.push(0);
        r
    } else {
        let mut r = slice_to_vec(slice_subrange(prefix, 0, n - 1));
        r.push(prefix[n - 1] + 1);
        r
    }
}

impl Kv {
    /// Decodes an item of `kvs`.
    pub fn from_json(item: &Json) -> (r: Option<Kv>)
        ensures
            match r {
                Some(kv) => kv_of(*item) == Some(kv@),
                None => kv_of(*item) is None,
            },
    {
        let key = match item.get("key") {
            Some(value) => match deserialize(value) {
                Some(bytes) => bytes,
                None => return None,
            },
            None => return None,
        };
        let value = match item.get("value") {
            Some(value) => match deserialize(value) {
                Some(bytes) => bytes,
                None => return None,
            },
            None => return None,
        };
        Some(Kv { key, value })
    }

    /// The member that the pair registers.
    pub fn target(&self) -> (r: Option<Target>)
        ensures
            match r {
                Some(target) => target_of(self@) == Some(target@),
                None => target_of(self@) is None,
            },
    {
        let key = match str_from_utf8(self.key.as_slice()) {
            Some(key) => key,
            None => return None,
        };
        let entry = match Json::from_slice(self.value.as_slice()) {
            Some(entry) => entry,
            None => return None,
        };
        let url = match entry.text("api_url") {
            Some(url) => url,
            None => return None,
        };
        let name = match tail_after(key, '/') {
            Some(tail) => tail.to_owned(),
            None => url.to_owned(),
        };
        Some(Target { name, url: url.to_owned() })
    }
}

/// Decodes a range response.
fn kvs(response: &Json) -> (r: Option<Vec<Kv>>)
    ensures
        match r {
            Some(kvs) => kvs_in(*response) == Some(kv_views(kvs@)),
            None => kvs_in(*response) is None,
        },
{
    match response {
        Json::Object(_) => {},
        _ => return None,
    }
    let mut kvs: Vec<Kv> = Vec::new();
    let items = match response.get("kvs") {
        None => {
            return Some(kvs);
        },
        Some(Json::Null) => {
            return Some(kvs);
        },
        Some(Json::Array(items)) => items,
        Some(_) => return None,
    };
    let mut i: usize = 0;
    while i < items.len()
        invariant
            i <= items.len(),
            kvs@.len() == i,
            kvs_in(*response) == kvs_of(items@),
            forall|k: int| 0 <= k < i ==> kv_of(#[trigger] items@[k]) == Some(kvs@[k]@),
        decreases items.len() - i,
    {
        match Kv::from_json(&items[i]) {
            Some(kv) => kvs.push(kv),
            None => return None,
        }
        i += 1;
    }
    Some(kvs)
}

impl EtcdClient {
    /// The URL of the store's API, to which the paths of its calls are added.
    pub closed spec fn base(&self) -> Seq<char> {
        self.url@
    }

    pub fn new(url: &str) -> (r: EtcdClient)
        ensures
            r.base() == url@,
    {
        EtcdClient { url: url.to_owned() }
    }
}

impl Exporter for EtcdClient {
    /// A POST to `v3beta/kv/range` for the keys that begin with the service's key.
    open spec fn lookup(&self, service: Seq<char>) -> Option<RequestView> {
        Some(
            RequestView::Post(self.base() + "v3beta/kv/range"@, range_body(members_key(service))),
        )
    }

    open spec fn found(&self, answer: Option<Fetched>) -> Result<Seq<TargetView>, DiscoveryError> {
        registered(answer)
    }

    fn name(&self) -> (r: &'static str)
        ensures
            r@ == "etcd"@,
    {
        "etcd"
    }

    fn request(&self, service: &str) -> (r: Option<Request>) {
        let mut url = self.url.clone();
        url.append("v3beta/kv/range");
        let mut key = "/service/".to_owned();
        key.append(service);
        key.append("/members");
        let key = key.as_str().as_bytes();
        let end = range_end(key);
        let mut body = "{\"key\":".to_owned();
        body.append(serialize(key).as_str());
        body.append(",\"range_end\":");
        body.append(serialize(end.as_slice()).as_str());
        body.append("}");
        Some(Request::Post(url, body))
    }

    fn targets(&self, answer: &Option<Fetched>) -> (r: Result<Vec<Target>, DiscoveryError>) {
        let body = match answer {
            Some(Fetched::Body(body)) => body,
            _ => return Err(DiscoveryError::Unreachable),
        };
        let response = match Json::from_slice(body.as_slice()) {
            Some(response) => response,
            None => return Err(DiscoveryError::Undecodable),
        };
        let kvs = match kvs(&response) {
            Some(kvs) => kvs,
            None => return Err(DiscoveryError::Undecodable),
        };
        let ghost views = kv_views(kvs@);
        let mut targets: Vec<Target> = Vec::new();
        let mut i: usize = 0;
        while i < kvs.len()
            invariant
                i <= kvs.len(),
                views == kv_views(kvs@),
                target_views(targets@) == targets_of(views.take(i as int)),
            decreases kvs.len() - i,
        {
            let ghost before = target_views(targets@);
            assert(views.take(i + 1).drop_last() =~= views.take(i as int));
            match kvs[i].target() {
                Some(target) => {
                    targets.push(target);
                    assert(target_views(targets@) =~= before.push(target@));
                },
                None => {},
            }
            i += 1;
        }
        assert(views.take(kvs.len() as int) =~= views);
        Ok(targets)
    }

    fn service(&self, answer: &Option<Fetched>, statuses: &Vec<Fetched>) -> (r: ExporterResult) {
        round(self.targets(answer), statuses)
    }
}

} // verus!
