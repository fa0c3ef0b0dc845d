//! The bytes of a context on the wire.
//!
//! A context is a format version, a list of entries and a list of scope names.
//! Numbers are little endian, in four bytes for versions and eight for counts;
//! a text or a byte string is its length followed by its bytes.

use vstd::prelude::*;

verus! {

/// A key, the version its value is written in, and the bytes of the value.
pub type WireEntry = (String, u32, Vec<u8>);

/// A format version, the entries, and the scope names.
pub type WireContext = (u32, Vec<WireEntry>, Vec<String>);

/// An entry with its text as characters.
#[verifier::ext_equal]
pub struct EntryView {
    pub key: Seq<char>,
    pub key_version: u32,
    pub value: Seq<u8>,
}

/// A context on the wire with its texts as characters.
#[verifier::ext_equal]
pub struct WireView {
    pub version: u32,
    pub entries: Seq<EntryView>,
    pub scope_chain: Seq<Seq<char>>,
}

/// What an entry holds.
pub open spec fn entry_view(entry: WireEntry) -> EntryView {
    EntryView { key: entry.0@, key_version: entry.1, value: entry.2@ }
}

/// What a list of entries holds.
pub open spec fn entry_list(entries: Seq<WireEntry>) -> Seq<EntryView> {
    Seq::new(entries.len(), |i: int| entry_view(entries[i]))
}

/// What a context on the wire holds.
pub open spec fn wire_view(wire: WireContext) -> WireView {
    WireView {
        version: wire.0,
        entries: entry_list(wire.1@),
        scope_chain: crate::text::views(wire.2@),
    }
}

/// Four bytes for a version.
pub open spec fn version_bytes(version: u32) -> Seq<u8> {
    vstd::bytes::spec_u32_to_le_bytes(version)
}

/// Eight bytes for a count.
pub open spec fn count_bytes(count: nat) -> Seq<u8> {
    vstd::bytes::spec_u64_to_le_bytes(count as u64)
}

/// A byte string with its length.
pub open spec fn blob_bytes(blob: Seq<u8>) -> Seq<u8> {
    count_bytes(blob.len()) + blob
}

/// A text with the length of its UTF-8 bytes.
pub open spec fn text_bytes(text: Seq<char>) -> Seq<u8> {
    blob_bytes(vstd::utf8::encode_utf8(text))
}

/// The bytes of an entry.
pub open spec fn entry_bytes(entry: EntryView) -> Seq<u8> {
    text_bytes(entry.key) + version_bytes(entry.key_version) + blob_bytes(entry.value)
}

/// The bytes of entries one after the other.
pub open spec fn entries_bytes(entries: Seq<EntryView>) -> Seq<u8>
    decreases entries.len(),
{
    if entries.len() == 0 {
        Seq::empty()
    } else {
        entry_bytes(entries[0]) + entries_bytes(entries.drop_first())
    }
}

/// The bytes of texts one after the other.
pub open spec fn texts_bytes(texts: Seq<Seq<char>>) -> Seq<u8>
    decreases texts.len(),
{
    if texts.len() == 0 {
        Seq::empty()
    } else {
        text_bytes(texts[0]) + texts_bytes(texts.drop_first())
    }
}

/// The bytes of a context.
pub open spec fn wire_bytes(wire: WireView) -> Seq<u8> {
    version_bytes(wire.version) + (count_bytes(wire.entries.len()) + (entries_bytes(wire.entries)
        + (count_bytes(wire.scope_chain.len()) + texts_bytes(wire.scope_chain))))
}

/// Calls `bincode::serialize` on a context: the bytes are the fields one after
/// the other, with fixed-width little-endian numbers and eight-byte counts.
/// Texts, byte strings, lists and tuples of them always have such bytes, and
/// there is no limit on their number, so the call succeeds.
#[verifier::external_body]
pub(crate) fn encode_wire(wire: &WireContext) -> (r: Result<Vec<u8>, String>)
    ensures
        r is Ok,
        r->Ok_0@ == wire_bytes(wire_view(*wire)),
{
    bincode::serialize(wire).map_err(|e| e.to_string())
}

/// Calls `bincode::deserialize` for a context: it succeeds when the bytes start
/// with those of some context, gives that context, and passes over what
/// follows. Nothing is said of the message that comes with a failure.
#[verifier::external_body]
pub(crate) fn decode_wire(bytes: &[u8]) -> (r: Result<WireContext, String>)
    ensures
        match r {
            Ok(wire) => wire_bytes(wire_view(wire)).is_prefix_of(bytes@),
            Err(_) => forall|wire: WireView| !(#[trigger] wire_bytes(wire)).is_prefix_of(bytes@),
        },
{
    bincode::deserialize(bytes).map_err(|e| e.to_string())
}

/// Two byte strings that start with a version start with the same one when they
/// are equal.
proof fn lemma_version_prefix(a: u32, b: u32, rest_a: Seq<u8>, rest_b: Seq<u8>)
    requires
        version_bytes(a) + rest_a == version_bytes(b) + rest_b,
    ensures
        a == b,
        rest_a == rest_b,
{
    vstd::bytes::lemma_auto_spec_u32_to_from_le_bytes();
    let x = version_bytes(a) + rest_a;
    let y = version_bytes(b) + rest_b;
    assert(x.take(4) =~= version_bytes(a));
    assert(y.take(4) =~= version_bytes(b));
    assert(x.skip(4) =~= rest_a);
    assert(y.skip(4) =~= rest_b);
    assert(vstd::bytes::spec_u32_from_le_bytes(version_bytes(a)) == a);
    assert(vstd::bytes::spec_u32_from_le_bytes(version_bytes(b)) == b);
}

proof fn lemma_count_prefix(a: nat, b: nat, rest_a: Seq<u8>, rest_b: Seq<u8>)
    requires
        a <= u64::MAX,
        b <= u64::MAX,
        count_bytes(a) + rest_a == count_bytes(b) + rest_b,
    ensures
        a == b,
        rest_a == rest_b,
{
    vstd::bytes::lemma_auto_spec_u64_to_from_le_bytes();
    let x = count_bytes(a) + rest_a;
    let y = count_bytes(b) + rest_b;
    assert(x.take(8) =~= count_bytes(a));
    assert(y.take(8) =~= count_bytes(b));
    assert(x.skip(8) =~= rest_a);
    assert(y.skip(8) =~= rest_b);
    assert(vstd::bytes::spec_u64_from_le_bytes(count_bytes(a)) == a as u64);
    assert(vstd::bytes::spec_u64_from_le_bytes(count_bytes(b)) == b as u64);
}

proof fn lemma_blob_prefix(a: Seq<u8>, b: Seq<u8>, rest_a: Seq<u8>, rest_b: Seq<u8>)
    requires
        a.len() <= u64::MAX,
        b.len() <= u64::MAX,
        blob_bytes(a) + rest_a == blob_bytes(b) + rest_b,
    ensures
        a == b,
        rest_a == rest_b,
{
    assert(blob_bytes(a) + rest_a =~= count_bytes(a.len()) + (a + rest_a));
    assert(blob_bytes(b) + rest_b =~= count_bytes(b.len()) + (b + rest_b));
    lemma_count_prefix(a.len(), b.len(), a + rest_a, b + rest_b);
    assert((a + rest_a).take(a.len() as int) =~= a);
    assert((b + rest_b).take(a.len() as int) =~= b);
    assert((a + rest_a).skip(a.len() as int) =~= rest_a);
    assert((b + rest_b).skip(a.len() as int) =~= rest_b);
}

proof fn lemma_text_prefix(a: Seq<char>, b: Seq<char>, rest_a: Seq<u8>, rest_b: Seq<u8>)
    requires
        text_bytes(a).len() <= u64::MAX,
        text_bytes(b).len() <= u64::MAX,
        text_bytes(a) + rest_a == text_bytes(b) + rest_b,
    ensures
        a == b,
        rest_a == rest_b,
{
    lemma_blob_prefix(
        vstd::utf8::encode_utf8(a),
        vstd::utf8::encode_utf8(b),
        rest_a,
        rest_b,
    );
    crate::text::lemma_same_bytes_same_text(a, b);
}

proof fn lemma_entry_prefix(a: EntryView, b: EntryView, rest_a: Seq<u8>, rest_b: Seq<u8>)
    requires
        entry_bytes(a).len() <= u64::MAX,
        entry_bytes(b).len() <= u64::MAX,
        entry_bytes(a) + rest_a == entry_bytes(b) + rest_b,
    ensures
        a == b,
        rest_a == rest_b,
{
    let tail_a = blob_bytes(a.value) + rest_a;
    let tail_b = blob_bytes(b.value) + rest_b;
    assert(entry_bytes(a) + rest_a =~= text_bytes(a.key) + (version_bytes(a.key_version) + tail_a));
    assert(entry_bytes(b) + rest_b =~= text_bytes(b.key) + (version_bytes(b.key_version) + tail_b));
    lemma_text_prefix(
        a.key,
        b.key,
        version_bytes(a.key_version) + tail_a,
        version_bytes(b.key_version) + tail_b,
    );
    lemma_version_prefix(a.key_version, b.key_version, tail_a, tail_b);
    lemma_blob_prefix(a.value, b.value, rest_a, rest_b);
}

proof fn lemma_entries_prefix(
    a: Seq<EntryView>,
    b: Seq<EntryView>,
    rest_a: Seq<u8>,
    rest_b: Seq<u8>,
)
    requires
        a.len() == b.len(),
        entries_bytes(a).len() <= u64::MAX,
        entries_bytes(b).len() <= u64::MAX,
        entries_bytes(a) + rest_a == entries_bytes(b) + rest_b,
    ensures
        a == b,
        rest_a == rest_b,
    decreases a.len(),
{
    if a.len() == 0 {
        assert(a =~= b);
        assert(entries_bytes(a) + rest_a =~= rest_a);
        assert(entries_bytes(b) + rest_b =~= rest_b);
    } else {
        let tail_a = entries_bytes(a.drop_first()) + rest_a;
        let tail_b = entries_bytes(b.drop_first()) + rest_b;
        assert(entries_bytes(a) + rest_a =~= entry_bytes(a[0]) + tail_a);
        assert(entries_bytes(b) + rest_b =~= entry_bytes(b[0]) + tail_b);
        lemma_entry_prefix(a[0], b[0], tail_a, tail_b);
        lemma_entries_prefix(a.drop_first(), b.drop_first(), rest_a, rest_b);
        assert(a =~= seq![a[0]] + a.drop_first());
        assert(b =~= seq![b[0]] + b.drop_first());
    }
}

proof fn lemma_texts_prefix(
    a: Seq<Seq<char>>,
    b: Seq<Seq<char>>,
    rest_a: Seq<u8>,
    rest_b: Seq<u8>,
)
    requires
        a.len() == b.len(),
        texts_bytes(a).len() <= u64::MAX,
        texts_bytes(b).len() <= u64::MAX,
        texts_bytes(a) + rest_a == texts_bytes(b) + rest_b,
    ensures
        a == b,
        rest_a == rest_b,
    decreases a.len(),
{
    if a.len() == 0 {
        assert(a =~= b);
        assert(texts_bytes(a) + rest_a =~= rest_a);
        assert(texts_bytes(b) + rest_b =~= rest_b);
    } else {
        let tail_a = texts_bytes(a.drop_first()) + rest_a;
        let tail_b = texts_bytes(b.drop_first()) + rest_b;
        assert(texts_bytes(a) + rest_a =~= text_bytes(a[0]) + tail_a);
        assert(texts_bytes(b) + rest_b =~= text_bytes(b[0]) + tail_b);
        lemma_text_prefix(a[0], b[0], tail_a, tail_b);
        lemma_texts_prefix(a.drop_first(), b.drop_first(), rest_a, rest_b);
        assert(a =~= seq![a[0]] + a.drop_first());
        assert(b =~= seq![b[0]] + b.drop_first());
    }
}

/// A list has no more entries than its bytes are long.
proof fn lemma_entries_len(entries: Seq<EntryView>)
    ensures
        entries.len() <= entries_bytes(entries).len(),
    decreases entries.len(),
{
    if entries.len() > 0 {
        lemma_entries_len(entries.drop_first());
        vstd::bytes::lemma_auto_spec_u32_to_from_le_bytes();
        assert(version_bytes(entries[0].key_version).len() == 4);
    }
}

proof fn lemma_texts_len(texts: Seq<Seq<char>>)
    ensures
        texts.len() <= texts_bytes(texts).len(),
    decreases texts.len(),
{
    if texts.len() > 0 {
        lemma_texts_len(texts.drop_first());
        vstd::bytes::lemma_auto_spec_u64_to_from_le_bytes();
        assert(count_bytes(vstd::utf8::encode_utf8(texts[0]).len()).len() == 8);
    }
}

proof fn lemma_concat(a: Seq<u8>, b: Seq<u8>, c: Seq<u8>)
    ensures
        (a + b) + c == a + (b + c),
{
    assert((a + b) + c =~= a + (b + c));
}

/// The bytes of a context, and what follows, part by part.
proof fn lemma_wire_parts(wire: WireView, rest: Seq<u8>)
    ensures
        wire_bytes(wire) + rest == version_bytes(wire.version) + (count_bytes(wire.entries.len())
            + (entries_bytes(wire.entries) + (count_bytes(wire.scope_chain.len()) + (texts_bytes(
            wire.scope_chain,
        ) + rest)))),
{
    let names = texts_bytes(wire.scope_chain);
    let chain = count_bytes(wire.scope_chain.len()) + names;
    let body = entries_bytes(wire.entries) + chain;
    let list = count_bytes(wire.entries.len()) + body;
    lemma_concat(count_bytes(wire.scope_chain.len()), names, rest);
    lemma_concat(entries_bytes(wire.entries), chain, rest);
    lemma_concat(count_bytes(wire.entries.len()), body, rest);
    lemma_concat(version_bytes(wire.version), list, rest);
}

/// Bytes start with those of at most one context.
pub proof fn law_bytes_have_one_meaning(a: WireView, b: WireView, bytes: Seq<u8>)
    requires
        bytes.len() <= usize::MAX,
        wire_bytes(a).is_prefix_of(bytes),
        wire_bytes(b).is_prefix_of(bytes),
    ensures
        a == b,
{
    let rest_a = bytes.skip(wire_bytes(a).len() as int);
    let rest_b = bytes.skip(wire_bytes(b).len() as int);
    assert(bytes =~= wire_bytes(a) + rest_a);
    assert(bytes =~= wire_bytes(b) + rest_b);
    lemma_entries_len(a.entries);
    lemma_entries_len(b.entries);
    lemma_texts_len(a.scope_chain);
    lemma_texts_len(b.scope_chain);
    assert(entries_bytes(a.entries).len() <= wire_bytes(a).len());
    assert(entries_bytes(b.entries).len() <= wire_bytes(b).len());
    assert(texts_bytes(a.scope_chain).len() <= wire_bytes(a).len());
    assert(texts_bytes(b.scope_chain).len() <= wire_bytes(b).len());
    lemma_same_parts(a, b, rest_a, rest_b);
}

proof fn lemma_same_parts(a: WireView, b: WireView, rest_a: Seq<u8>, rest_b: Seq<u8>)
    requires
        wire_bytes(a) + rest_a == wire_bytes(b) + rest_b,
        a.entries.len() <= u64::MAX,
        b.entries.len() <= u64::MAX,
        a.scope_chain.len() <= u64::MAX,
        b.scope_chain.len() <= u64::MAX,
        entries_bytes(a.entries).len() <= u64::MAX,
        entries_bytes(b.entries).len() <= u64::MAX,
        texts_bytes(a.scope_chain).len() <= u64::MAX,
        texts_bytes(b.scope_chain).len() <= u64::MAX,
    ensures
        a == b,
        rest_a == rest_b,
{
    let chain_a = texts_bytes(a.scope_chain) + rest_a;
    let chain_b = texts_bytes(b.scope_chain) + rest_b;
    let names_a = count_bytes(a.scope_chain.len()) + chain_a;
    let names_b = count_bytes(b.scope_chain.len()) + chain_b;
    let body_a = entries_bytes(a.entries) + names_a;
    let body_b = entries_bytes(b.entries) + names_b;
    let list_a = count_bytes(a.entries.len()) + body_a;
    let list_b = count_bytes(b.entries.len()) + body_b;
    lemma_wire_parts(a, rest_a);
    lemma_wire_parts(b, rest_b);
    lemma_version_prefix(a.version, b.version, list_a, list_b);
    lemma_count_prefix(a.entries.len(), b.entries.len(), body_a, body_b);
    lemma_entries_prefix(a.entries, b.entries, names_a, names_b);
    lemma_count_prefix(a.scope_chain.len(), b.scope_chain.len(), chain_a, chain_b);
    lemma_texts_prefix(a.scope_chain, b.scope_chain, rest_a, rest_b);
    assert(a =~= b);
}

} // verus!
