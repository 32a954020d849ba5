use crate::error::{ZFError, ZFResult};
use crate::naming::{uuid_parse_str, uuid_parsed};
use vstd::prelude::*;
use vstd::string::*;
use vstd::utf8::*;

verus! {

/// Where the flow runtime keeps its keys when it runs as a plugin of a
/// router: this, the router's identifier, and the suffix below.
pub const ROOT_PLUGIN_RUNTIME_PREFIX: &'static str = "/@/router/";

pub const ROOT_PLUGIN_RUNTIME_SUFFIX: &'static str = "/plugin/janu-flow";

/// Where the flow runtime keeps its keys when it runs on its own.
pub const ROOT_STANDALONE: &'static str = "/janu-flow";

pub const KEY_RUNTIMES: &'static str = "runtimes";

pub const KEY_REGISTRY: &'static str = "registry";

pub const KEY_FLOWS: &'static str = "flows";

pub const KEY_GRAPHS: &'static str = "graphs";

pub const KEY_INFO: &'static str = "info";

pub const KEY_STATUS: &'static str = "status";

pub const KEY_CONFIGURATION: &'static str = "configuration";

/// Two pieces of a key with the separator between them.
pub open spec fn slash(a: Seq<char>, b: Seq<char>) -> Seq<char> {
    a + "/"@ + b
}

fn push_piece(key: &mut String, piece: &str)
    ensures
        final(key)@ == slash(old(key)@, piece@),
{
    key.append("/");
    key.append(piece);
}

/// The key of what a runtime says of itself:
/// `<prefix>/runtimes/<runtime>/info`.
pub fn rt_info_path(prefix: &str, rtid: &str) -> (key: String)
    ensures
        key@ == slash(slash(slash(prefix@, KEY_RUNTIMES@), rtid@), KEY_INFO@),
{
    let mut key = String::from_str(prefix);
    push_piece(&mut key, KEY_RUNTIMES);
    push_piece(&mut key, rtid);
    push_piece(&mut key, KEY_INFO);
    key
}

/// The key of the state of a runtime: `<prefix>/runtimes/<runtime>/status`.
pub fn rt_status_path(prefix: &str, rtid: &str) -> (key: String)
    ensures
        key@ == slash(slash(slash(prefix@, KEY_RUNTIMES@), rtid@), KEY_STATUS@),
{
    let mut key = String::from_str(prefix);
    push_piece(&mut key, KEY_RUNTIMES);
    push_piece(&mut key, rtid);
    push_piece(&mut key, KEY_STATUS);
    key
}

/// The key of the configuration of a runtime:
/// `<prefix>/runtimes/<runtime>/configuration`.
pub fn rt_configuration_path(prefix: &str, rtid: &str) -> (key: String)
    ensures
        key@ == slash(slash(slash(prefix@, KEY_RUNTIMES@), rtid@), KEY_CONFIGURATION@),
{
    let mut key = String::from_str(prefix);
    push_piece(&mut key, KEY_RUNTIMES);
    push_piece(&mut key, rtid);
    push_piece(&mut key, KEY_CONFIGURATION);
    key
}

/// The key of one instance of a flow on one runtime:
/// `<prefix>/runtimes/<runtime>/flows/<flow>/<instance>`.
pub fn rt_flow_path(prefix: &str, rtid: &str, fid: &str, iid: &str) -> (key: String)
    ensures
        key@ == slash(
            slash(slash(slash(slash(prefix@, KEY_RUNTIMES@), rtid@), KEY_FLOWS@), fid@),
            iid@,
        ),
{
    let mut key = String::from_str(prefix);
    push_piece(&mut key, KEY_RUNTIMES);
    push_piece(&mut key, rtid);
    push_piece(&mut key, KEY_FLOWS);
    push_piece(&mut key, fid);
    push_piece(&mut key, iid);
    key
}

/// The keys of one instance on one runtime, whatever its flow:
/// `<prefix>/runtimes/<runtime>/flows/*/<instance>`.
pub fn rt_flow_selector_by_instance(prefix: &str, rtid: &str, iid: &str) -> (key: String)
    ensures
        key@ == slash(
            slash(slash(slash(slash(prefix@, KEY_RUNTIMES@), rtid@), KEY_FLOWS@), "*"@),
            iid@,
        ),
{
    rt_flow_path(prefix, rtid, "*", iid)
}

/// The keys of all instances of one flow on one runtime:
/// `<prefix>/runtimes/<runtime>/flows/<flow>/*`.
pub fn rt_flow_selector_by_flow(prefix: &str, rtid: &str, fid: &str) -> (key: String)
    ensures
        key@ == slash(
            slash(slash(slash(slash(prefix@, KEY_RUNTIMES@), rtid@), KEY_FLOWS@), fid@),
            "*"@,
        ),
{
    rt_flow_path(prefix, rtid, fid, "*")
}

/// The keys of all instances on one runtime:
/// `<prefix>/runtimes/<runtime>/flows/*/*`.
pub fn rt_flow_selector_all(prefix: &str, rtid: &str) -> (key: String)
    ensures
        key@ == slash(
            slash(slash(slash(slash(prefix@, KEY_RUNTIMES@), rtid@), KEY_FLOWS@), "*"@),
            "*"@,
        ),
{
    rt_flow_path(prefix, rtid, "*", "*")
}

/// The keys of one instance on all runtimes:
/// `<prefix>/runtimes/*/flows/*/<instance>`.
pub fn flow_selector_by_instance(prefix: &str, iid: &str) -> (key: String)
    ensures
        key@ == slash(
            slash(slash(slash(slash(prefix@, KEY_RUNTIMES@), "*"@), KEY_FLOWS@), "*"@),
            iid@,
        ),
{
    rt_flow_path(prefix, "*", "*", iid)
}

/// The keys of all instances of one flow on all runtimes:
/// `<prefix>/runtimes/*/flows/<flow>/*`.
pub fn flow_selector_by_flow(prefix: &str, fid: &str) -> (key: String)
    ensures
        key@ == slash(
            slash(slash(slash(slash(prefix@, KEY_RUNTIMES@), "*"@), KEY_FLOWS@), fid@),
            "*"@,
        ),
{
    rt_flow_path(prefix, "*", fid, "*")
}

/// The key of a graph in the registry: `<prefix>/registry/graphs/<flow>`.
pub fn reg_graph_selector(prefix: &str, fid: &str) -> (key: String)
    ensures
        key@ == slash(slash(slash(prefix@, KEY_REGISTRY@), KEY_GRAPHS@), fid@),
{
    let mut key = String::from_str(prefix);
    push_piece(&mut key, KEY_REGISTRY);
    push_piece(&mut key, KEY_GRAPHS);
    push_piece(&mut key, fid);
    key
}

/// How a value on the fabric is encoded: a known kind, by number, and a
/// suffix that tells more.
#[derive(Debug, PartialEq, Eq)]
pub struct Encoding {
    pub prefix: u64,
    pub suffix: String,
}

/// The number of the encoding of a value that is a string of bytes.
pub const APP_OCTET_STREAM: u64 = 1;

impl Encoding {
    /// Whether this encoding is of the kind of `with` and its suffix begins
    /// with that of `with`.
    pub open spec fn begins_with(&self, with: &Encoding) -> bool {
        self.prefix == with.prefix && with.suffix@.is_prefix_of(self.suffix@)
    }

    /// Whether a value with this encoding is a string of bytes.
    pub open spec fn is_octets(&self) -> bool {
        self.prefix == APP_OCTET_STREAM
    }

    /// The encoding of a string of bytes.
    pub fn app_octet_stream() -> (r: Encoding)
        ensures
            r.prefix == APP_OCTET_STREAM,
            r.suffix@ == Seq::<char>::empty(),
    {
        Encoding { prefix: APP_OCTET_STREAM, suffix: String::new() }
    }

    /// Whether this encoding is of the kind of `with` and its suffix begins
    /// with that of `with`.
    pub fn starts_with(&self, with: &Encoding) -> (r: bool)
        ensures
            r == self.begins_with(with),
    {
        if self.prefix != with.prefix {
            return false;
        }
        let mine = self.suffix.as_str();
        let theirs = with.suffix.as_str();
        let n = theirs.unicode_len();
        if mine.unicode_len() < n {
            return false;
        }
        let mut i: usize = 0;
        while i < n
            invariant
                i <= n,
                n == theirs@.len(),
                n <= mine@.len(),
                mine@ == self.suffix@,
                theirs@ == with.suffix@,
                self.prefix == with.prefix,
                forall|j: int| 0 <= j < i ==> mine@[j] == theirs@[j],
            decreases n - i,
        {
            if mine.get_char(i) != theirs.get_char(i) {
                assert(mine@.subrange(0, n as int)[i as int] != theirs@[i as int]);
                assert(theirs@ != mine@.subrange(0, theirs@.len() as int));
                return false;
            }
            i += 1;
        }
        assert(theirs@ =~= mine@.subrange(0, n as int));
        true
    }

    /// Whether a value with this encoding is a string of bytes.
    pub fn is_octet_stream(&self) -> (r: bool)
        ensures
            r == self.is_octets(),
    {
        let octets = Encoding::app_octet_stream();
        assert(octets.suffix@ =~= self.suffix@.subrange(0, 0));
        self.starts_with(&octets)
    }
}

/// `std::str::from_utf8`: the text that the bytes spell, if they are
/// well-formed UTF-8.
#[verifier::external_body]
fn str_from_utf8(bytes: &[u8]) -> (r: Option<&str>)
    ensures
        r is Some <==> valid_utf8(bytes@),
        r matches Some(text) ==> text@ == decode_utf8(bytes@),
{
    match std::str::from_utf8(bytes) {
        Ok(text) => Some(text),
        Err(_) => None,
    }
}

/// Opens the frame of a value that came over the fabric: the bytes are the
/// UTF-8 of a document, which is returned. Bytes that are no UTF-8 are
/// refused with `SerializationError`.
pub fn deserialize_data(raw_data: &[u8]) -> (r: ZFResult<&str>)
    ensures
        !valid_utf8(raw_data@) ==> r == Err::<&str, ZFError>(ZFError::SerializationError),
        valid_utf8(raw_data@) ==> (r matches Ok(text) && text@ == decode_utf8(raw_data@)),
{
    match str_from_utf8(raw_data) {
        Some(text) => Ok(text),
        None => Err(ZFError::SerializationError),
    }
}

/// Frames a document for the fabric: its UTF-8 bytes.
pub fn serialize_data(data: &str) -> (r: ZFResult<Vec<u8>>)
    ensures
        r matches Ok(bytes) && bytes@ == encode_utf8(data@),
{
    Ok(data.as_bytes_vec())
}

/// What was framed comes out of the frame as it went in.
pub proof fn lemma_frame_round_trip(text: Seq<char>)
    ensures
        valid_utf8(encode_utf8(text)),
        decode_utf8(encode_utf8(text)) == text,
{
    encode_utf8_valid_utf8(text);
    encode_utf8_decode_utf8(text);
}

/// One answer of the fabric to a query: the key it was found under, how
/// its value is encoded, and the value.
#[derive(Debug, PartialEq, Eq)]
pub struct Reply {
    pub key: String,
    pub encoding: Encoding,
    pub payload: Vec<u8>,
}

/// Makes the value that a query for one thing has found out of the answers.
///
/// No answer at all is reported as `Empty`. Else the first answer counts:
/// when its value is no string of bytes, that is a `DeseralizationError`;
/// otherwise the outcome is whatever `decode` makes of the bytes.
pub fn decode_first_reply<T, F: Fn(&Vec<u8>) -> ZFResult<T>>(data: &Vec<Reply>, decode: F) -> (r:
    ZFResult<T>)
    requires
        forall|bytes: &Vec<u8>| call_requires(decode, (bytes,)),
    ensures
        data@.len() == 0 ==> r == Err::<T, ZFError>(ZFError::Empty),
        data@.len() > 0 && !data@[0].encoding.is_octets() ==> r == Err::<T, ZFError>(
            ZFError::DeseralizationError,
        ),
        data@.len() > 0 && data@[0].encoding.is_octets() ==> call_ensures(
            decode,
            (&data@[0].payload,),
            r,
        ),
{
    if data.len() == 0 {
        return Err(ZFError::Empty);
    }
    let kv = &data[0];
    if kv.encoding.is_octet_stream() {
        decode(&kv.payload)
    } else {
        Err(ZFError::DeseralizationError)
    }
}

/// Makes the values that a query for many things has found out of the
/// answers, in the order of the answers.
///
/// The answers are gone through in order. The first one whose value is no
/// string of bytes ends the work with `DeseralizationError`; the first one
/// whose bytes `decode` refuses ends it with the error of `decode`.
pub fn decode_replies<T, F: Fn(&Vec<u8>) -> ZFResult<T>>(data: &Vec<Reply>, decode: F) -> (r:
    ZFResult<Vec<T>>)
    requires
        forall|bytes: &Vec<u8>| call_requires(decode, (bytes,)),
    ensures
        r matches Ok(values) ==> {
            &&& values@.len() == data@.len()
            &&& forall|i: int|
                0 <= i < data@.len() ==> (#[trigger] data@[i]).encoding.is_octets() && call_ensures(
                    decode,
                    (&data@[i].payload,),
                    Ok::<T, ZFError>(values@[i]),
                )
        },
        r matches Err(e) ==> exists|i: int|
            {
                &&& 0 <= i < data@.len()
                &&& forall|k: int| 0 <= k < i ==> (#[trigger] data@[k]).encoding.is_octets()
                &&& if (#[trigger] data@[i]).encoding.is_octets() {
                    call_ensures(decode, (&data@[i].payload,), Err::<T, ZFError>(e))
                } else {
                    e == ZFError::DeseralizationError
                }
            },
{
    let mut values: Vec<T> = Vec::new();
    let mut i: usize = 0;
    while i < data.len()
        invariant
            i <= data.len(),
            values@.len() == i,
            forall|bytes: &Vec<u8>| call_requires(decode, (bytes,)),
            forall|k: int|
                0 <= k < i ==> (#[trigger] data@[k]).encoding.is_octets() && call_ensures(
                    decode,
                    (&data@[k].payload,),
                    Ok::<T, ZFError>(values@[k]),
                ),
        decreases data.len() - i,
    {
        let kv = &data[i];
        if !kv.encoding.is_octet_stream() {
            return Err(ZFError::DeseralizationError);
        }
        match decode(&kv.payload) {
            Ok(value) => {
                values.push(value);
            },
            Err(e) => {
                return Err(e);
            },
        }
        i += 1;
    }
    Ok(values)
}

/// What has happened to a key on the fabric.
#[derive(Debug, Clone, Copy, PartialEq, Eq)]
pub enum SampleKind {
    Put,
    Patch,
    Delete,
}

/// One notice of the fabric about a key that is being watched.
#[derive(Debug, PartialEq, Eq)]
pub struct Sample {
    pub kind: SampleKind,
    pub encoding: Encoding,
    pub payload: Vec<u8>,
}

/// How far a stream has come when it is asked for its next item.
#[derive(Debug, PartialEq, Eq)]
pub enum Polled<T> {
    /// The next item is there, or the stream has ended.
    Ready(T),
    /// Nothing is there yet.
    Pending,
}

/// Makes the next item of a stream of configurations out of what the
/// stream of notices underneath has to offer.
///
/// When that stream has nothing yet, or has ended, so has this one. A notice
/// of a value that was put or patched, and that is a string of bytes which
/// `decode` accepts, yields the decoded value. Every other notice is passed
/// over, and the stream has nothing yet: one of a deletion, one whose value
/// is no string of bytes, one whose bytes `decode` refuses.
pub fn poll_next<T, F: Fn(&Vec<u8>) -> ZFResult<T>>(polled: Polled<Option<&Sample>>, decode: F)
    -> (r: Polled<Option<T>>)
    requires
        forall|bytes: &Vec<u8>| call_requires(decode, (bytes,)),
    ensures
        polled is Pending ==> r is Pending,
        polled matches Polled::Ready(None) ==> r matches Polled::Ready(None),
        polled matches Polled::Ready(Some(sample)) ==> {
            &&& sample.kind is Delete ==> r is Pending
            &&& !sample.encoding.is_octets() ==> r is Pending
            &&& !(sample.kind is Delete) && sample.encoding.is_octets() ==> {
                &&& r matches Polled::Ready(Some(value)) ==> call_ensures(
                    decode,
                    (&sample.payload,),
                    Ok::<T, ZFError>(value),
                )
                &&& r is Pending ==> exists|e: ZFError|
                    call_ensures(decode, (&sample.payload,), Err::<T, ZFError>(e))
                &&& !(r matches Polled::Ready(None))
            }
        },
{
    match polled {
        Polled::Ready(Some(sample)) => match sample.kind {
            SampleKind::Put | SampleKind::Patch => {
                if sample.encoding.is_octet_stream() {
                    match decode(&sample.payload) {
                        Ok(info) => Polled::Ready(Some(info)),
                        Err(_) => Polled::Pending,
                    }
                } else {
                    Polled::Pending
                }
            },
            SampleKind::Delete => Polled::Pending,
        },
        Polled::Ready(None) => Polled::Ready(None),
        Polled::Pending => Polled::Pending,
    }
}

/// Where the first separator stands in a key, or the length of the key when
/// it has none.
pub open spec fn first_slash(s: Seq<char>) -> int
    decreases s.len(),
{
    if s.len() == 0 {
        0
    } else if s[0] == '/' {
        0
    } else {
        1 + first_slash(s.drop_first())
    }
}

/// The `n`-th piece of a key, counted from zero: what stands between the
/// separators. A key that begins with a separator has an empty first piece.
pub open spec fn piece(s: Seq<char>, n: nat) -> Option<Seq<char>>
    decreases n,
{
    let cut = first_slash(s);
    if n == 0 {
        Some(s.take(cut))
    } else if cut >= s.len() {
        None
    } else {
        piece(s.skip(cut + 1), (n - 1) as nat)
    }
}

proof fn lemma_first_slash(s: Seq<char>)
    ensures
        0 <= first_slash(s) <= s.len(),
        forall|j: int| 0 <= j < first_slash(s) ==> s[j] != '/',
        first_slash(s) < s.len() ==> s[first_slash(s)] == '/',
    decreases s.len(),
{
    if s.len() > 0 && s[0] != '/' {
        let rest = s.drop_first();
        lemma_first_slash(rest);
        assert forall|j: int| 0 <= j < first_slash(s) implies s[j] != '/' by {
            if j > 0 {
                assert(rest[j - 1] == s[j]);
            }
        }
        if first_slash(s) < s.len() {
            assert(rest[first_slash(rest)] == s[first_slash(s)]);
        }
    }
}

proof fn lemma_first_slash_is(s: Seq<char>, at: int)
    requires
        0 <= at <= s.len(),
        forall|j: int| 0 <= j < at ==> s[j] != '/',
        at < s.len() ==> s[at] == '/',
    ensures
        first_slash(s) == at,
{
    lemma_first_slash(s);
    let f = first_slash(s);
    if f < at {
        assert(s[f] == '/');
    } else if f > at {
        assert(s[at] != '/');
    }
}

proof fn lemma_piece_step(head: Seq<char>, tail: Seq<char>, n: nat)
    requires
        !head.contains('/'),
    ensures
        piece(head + seq!['/'] + tail, 0) == Some(head),
        piece(head + seq!['/'] + tail, n + 1) == piece(tail, n),
{
    let s = head + seq!['/'] + tail;
    assert forall|j: int| 0 <= j < head.len() implies s[j] != '/' by {
        assert(s[j] == head[j]);
        assert(head.contains(head[j]));
    }
    assert(s[head.len() as int] == '/');
    lemma_first_slash_is(s, head.len() as int);
    assert(s.take(head.len() as int) =~= head);
    assert(s.skip(head.len() as int + 1) =~= tail);
}

/// The key of an instance on a runtime that runs on its own names the
/// runtime in its fourth piece, whatever the flow and the instance are
/// called, as long as the name of the runtime holds no separator. This is
/// where `get_flow_instance_runtimes` looks for it.
pub proof fn lemma_flow_key_names_its_runtime(rtid: Seq<char>, fid: Seq<char>, iid: Seq<char>)
    requires
        !rtid.contains('/'),
    ensures
        piece(
            slash(
                slash(slash(slash(slash(ROOT_STANDALONE@, KEY_RUNTIMES@), rtid), KEY_FLOWS@), fid),
                iid,
            ),
            3,
        ) == Some(rtid),
{
    reveal_strlit("/janu-flow");
    reveal_strlit("runtimes");
    reveal_strlit("/");
    let root = ROOT_STANDALONE@;
    let runtimes = KEY_RUNTIMES@;
    let name = root.skip(1);
    let rest = slash(KEY_FLOWS@, fid) + "/"@ + iid;
    let key = slash(
        slash(slash(slash(slash(root, runtimes), rtid), KEY_FLOWS@), fid),
        iid,
    );
    assert("/"@ =~= seq!['/']);
    assert(root =~= Seq::<char>::empty() + seq!['/'] + name);
    let after_root = name + seq!['/'] + (runtimes + seq!['/'] + (rtid + seq!['/'] + rest));
    assert(key =~= Seq::<char>::empty() + seq!['/'] + after_root);
    assert(!name.contains('/')) by {
        assert forall|j: int| 0 <= j < name.len() implies name[j] != '/' by {
            assert(name[j] == root[j + 1]);
        }
    }
    assert(!runtimes.contains('/')) by {
        assert forall|j: int| 0 <= j < runtimes.len() implies runtimes[j] != '/' by {}
    }
    assert(!Seq::<char>::empty().contains('/'));
    lemma_piece_step(Seq::<char>::empty(), after_root, 2);
    lemma_piece_step(name, runtimes + seq!['/'] + (rtid + seq!['/'] + rest), 1);
    lemma_piece_step(runtimes, rtid + seq!['/'] + rest, 0);
    lemma_piece_step(rtid, rest, 0);
}

/// The `index`-th piece of a key, if the key has that many pieces.
pub fn key_piece(key: &str, index: usize) -> (r: Option<&str>)
    ensures
        match r {
            Some(p) => piece(key@, index as nat) == Some(p@),
            None => piece(key@, index as nat) is None,
        },
{
    let len = key.unicode_len();
    let mut start: usize = 0;
    let mut left: usize = index;
    assert(key@.skip(0) =~= key@);
    loop
        invariant
            len == key@.len(),
            start <= len,
            left <= index,
            piece(key@, index as nat) == piece(key@.skip(start as int), left as nat),
        decreases left, len - start,
    {
        // Find the end of the piece that begins at `start`.
        let mut end: usize = start;
        while end < len && key.get_char(end) != '/'
            invariant
                len == key@.len(),
                start <= end <= len,
                forall|j: int| start <= j < end ==> key@[j] != '/',
            decreases len - end,
        {
            end += 1;
        }
        proof {
            let rest = key@.skip(start as int);
            assert forall|j: int| 0 <= j < end - start implies rest[j] != '/' by {
                assert(rest[j] == key@[start + j]);
            }
            if end < len {
                assert(rest[end - start] == key@[end as int]);
            }
            lemma_first_slash_is(rest, end - start);
        }
        if left == 0 {
            let found = key.substring_char(start, end);
            assert(found@ =~= key@.skip(start as int).take(end - start));
            return Some(found);
        }
        if end >= len {
            return None;
        }
        proof {
            assert(key@.skip(start as int).skip(end - start + 1) =~= key@.skip(end + 1));
        }
        start = end + 1;
        left -= 1;
    }
}

/// Whether every key has a fourth piece.
pub open spec fn have_runtime_pieces(data: Seq<Reply>) -> bool {
    forall|i: int| 0 <= i < data.len() ==> piece((#[trigger] data[i]).key@, 3) is Some
}

/// What the fourth piece of a key reads as: the identifier it denotes, and
/// none when the key has no fourth piece or the piece denotes none.
pub open spec fn runtime_piece(key: Seq<char>) -> Option<u128> {
    match piece(key, 3) {
        Some(text) => uuid_parsed(text),
        None => None,
    }
}

/// What the fourth piece of each key reads as.
pub open spec fn runtime_pieces(data: Seq<Reply>) -> Seq<Option<u128>> {
    Seq::new(data.len(), |i: int| runtime_piece(data[i].key@))
}

/// The identifiers that were read, if every one was read.
///
/// The outcome is `DeseralizationError` exactly when some text did not read
/// as an identifier.
pub fn runtime_ids(parsed: &Vec<Option<u128>>) -> (r: ZFResult<Vec<u128>>)
    ensures
        r is Ok <==> forall|i: int| 0 <= i < parsed@.len() ==> #[trigger] parsed@[i] is Some,
        r matches Ok(ids) ==> ids@.len() == parsed@.len() && forall|i: int|
            0 <= i < parsed@.len() ==> #[trigger] parsed@[i] == Some(ids@[i]),
        r matches Err(e) ==> e == ZFError::DeseralizationError,
{
    let mut ids: Vec<u128> = Vec::new();
    let mut i: usize = 0;
    while i < parsed.len()
        invariant
            i <= parsed.len(),
            ids@.len() == i,
            forall|k: int| 0 <= k < i ==> #[trigger] parsed@[k] == Some(ids@[k]),
        decreases parsed.len() - i,
    {
        match parsed[i] {
            Some(id) => {
                ids.push(id);
            },
            None => {
                return Err(ZFError::DeseralizationError);
            },
        }
        i += 1;
    }
    Ok(ids)
}

/// The runtimes that host an instance, read from the keys under which the
/// instance was found: the fourth piece of each key is the identifier of a
/// runtime.
///
/// A key that has no fourth piece, or whose fourth piece does not read as an
/// identifier, makes the outcome a `DeseralizationError`. Otherwise the
/// identifiers are returned, one for each key, in the order of the keys.
pub fn get_flow_instance_runtimes(data: &Vec<Reply>) -> (r: ZFResult<Vec<u128>>)
    ensures
        !have_runtime_pieces(data@) ==> r == Err::<Vec<u128>, ZFError>(
            ZFError::DeseralizationError,
        ),
        r is Ok <==> forall|i: int|
            0 <= i < data@.len() ==> #[trigger] runtime_pieces(data@)[i] is Some,
        r matches Ok(ids) ==> ids@.len() == data@.len() && forall|i: int|
            0 <= i < data@.len() ==> #[trigger] runtime_pieces(data@)[i] == Some(ids@[i]),
        r matches Err(e) ==> e == ZFError::DeseralizationError,
{
    let mut parsed: Vec<Option<u128>> = Vec::new();
    let mut i: usize = 0;
    while i < data.len()
        invariant
            i <= data.len(),
            parsed@ == runtime_pieces(data@).take(i as int),
        decreases data.len() - i,
    {
        let read = match key_piece(data[i].key.as_str(), 3) {
            Some(id) => uuid_parse_str(id),
            None => None,
        };
        parsed.push(read);
        proof {
            let all = runtime_pieces(data@);
            assert(all.take(i + 1) =~= all.take(i as int).push(all[i as int]));
        }
        i += 1;
    }
    proof {
        assert(runtime_pieces(data@).take(i as int) =~= runtime_pieces(data@));
        if !have_runtime_pieces(data@) {
            let k = choose|k: int|
                0 <= k < data@.len() && !(piece((#[trigger] data@[k]).key@, 3) is Some);
            assert(runtime_pieces(data@)[k] is None);
        }
    }
    runtime_ids(&parsed)
}

} // verus!
