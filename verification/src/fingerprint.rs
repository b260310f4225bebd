//! Change detection: the fingerprint of a snapshot.
//!
//! A fingerprint is the lower-case hexadecimal SHA-256 digest of the bytes of
//! every item of a snapshot, each item's MIME type followed by its payload, in
//! snapshot order.

use vstd::prelude::*;
use vstd::utf8::encode_utf8;
use sha2::Digest;
use crate::api::{snapshot_view, ContentView, MimeContent};
use crate::text::{digit_char, digit_str, str_eq};

verus! {

/// A SHA-256 computation in progress, holding `sha2::Sha256`.  Verus sees
/// nothing of the hasher but [`stream_input`], the bytes fed to it so far.
#[verifier::external_body]
pub struct Sha256Stream {
    inner: sha2::Sha256,
}

/// The bytes that a hasher has been given since it was created, in order.
pub uninterp spec fn stream_input(stream: Sha256Stream) -> Seq<u8>;

/// The SHA-256 digest of a byte sequence.
pub uninterp spec fn sha256(input: Seq<u8>) -> Seq<u8>;

/// `sha2::Sha256::new`: a hasher that has been given no bytes yet.
#[verifier::external_body]
fn stream_new() -> (stream: Sha256Stream)
    ensures
        stream_input(stream) == Seq::<u8>::empty(),
{
    Sha256Stream { inner: sha2::Sha256::new() }
}

/// `sha2::Digest::update`: the hasher is given `data` after what it already
/// holds.
#[verifier::external_body]
fn stream_update(stream: &mut Sha256Stream, data: &[u8])
    ensures
        stream_input(*final(stream)) == stream_input(*old(stream)) + data@,
{
    stream.inner.update(data);
}

/// `sha2::Digest::finalize`: the digest of everything the hasher was given,
/// which for SHA-256 is 32 bytes long.
#[verifier::external_body]
fn stream_finalize(stream: Sha256Stream) -> (digest: Vec<u8>)
    ensures
        digest@ == sha256(stream_input(stream)),
        digest@.len() == 32,
{
    stream.inner.finalize().to_vec()
}

/// Two lower-case hexadecimal digits for each byte, high nibble first.
pub open spec fn hex_lower(bytes: Seq<u8>) -> Seq<char>
    decreases bytes.len(),
{
    if bytes.len() == 0 {
        Seq::<char>::empty()
    } else {
        hex_lower(bytes.drop_last()).push(digit_char(bytes.last() as int / 16)).push(
            digit_char(bytes.last() as int % 16),
        )
    }
}

/// The bytes that one item contributes to the hash: its MIME type, then its
/// payload, each in UTF-8.
pub open spec fn content_bytes(item: ContentView) -> Seq<u8> {
    encode_utf8(item.mime_type) + encode_utf8(item.data)
}

/// The bytes of a whole snapshot: the bytes of its items, in snapshot order.
pub open spec fn snapshot_bytes(items: Seq<ContentView>) -> Seq<u8>
    decreases items.len(),
{
    if items.len() == 0 {
        Seq::<u8>::empty()
    } else {
        snapshot_bytes(items.drop_last()) + content_bytes(items.last())
    }
}

/// The fingerprint of a snapshot.
pub open spec fn fingerprint_of(items: Seq<ContentView>) -> Seq<char> {
    hex_lower(sha256(snapshot_bytes(items)))
}

/// `hex_lower` gives two characters per byte.
pub proof fn lemma_hex_lower_len(bytes: Seq<u8>)
    ensures
        hex_lower(bytes).len() == 2 * bytes.len(),
    decreases bytes.len(),
{
    if bytes.len() > 0 {
        lemma_hex_lower_len(bytes.drop_last());
    }
}

/// `hex_lower` loses nothing: byte sequences with the same hexadecimal text
/// are the same.
pub proof fn lemma_hex_lower_injective(a: Seq<u8>, b: Seq<u8>)
    requires
        hex_lower(a) == hex_lower(b),
    ensures
        a == b,
    decreases a.len(),
{
    lemma_hex_lower_len(a);
    lemma_hex_lower_len(b);
    if a.len() > 0 {
        let ha = hex_lower(a.drop_last());
        let hb = hex_lower(b.drop_last());
        let x = a.last() as int;
        let y = b.last() as int;
        lemma_hex_lower_len(a.drop_last());
        lemma_hex_lower_len(b.drop_last());
        let fa = ha.push(digit_char(x / 16)).push(digit_char(x % 16));
        let fb = hb.push(digit_char(y / 16)).push(digit_char(y % 16));
        assert(fa == fb);
        assert(fa[fa.len() - 1] == fb[fb.len() - 1]);
        assert(fa[fa.len() - 2] == fb[fb.len() - 2]);
        assert(x / 16 == y / 16 && x % 16 == y % 16);
        assert(x == y);
        assert(ha =~= fa.take(ha.len() as int));
        assert(hb =~= fb.take(hb.len() as int));
        lemma_hex_lower_injective(a.drop_last(), b.drop_last());
        assert(a =~= a.drop_last().push(a.last()));
        assert(b =~= b.drop_last().push(b.last()));
    } else {
        assert(a =~= b);
    }
}

/// Snapshots that hold the same items in the same order have the same
/// fingerprint.
pub proof fn lemma_equal_snapshots_equal_fingerprints(a: Seq<MimeContent>, b: Seq<MimeContent>)
    requires
        a.len() == b.len(),
        forall|i: int| 0 <= i < a.len() ==> a[i]@ == b[i]@,
    ensures
        fingerprint_of(snapshot_view(a)) == fingerprint_of(snapshot_view(b)),
{
    assert(snapshot_view(a) =~= snapshot_view(b));
}

/// Two fingerprints are equal exactly if the SHA-256 digests of the two
/// snapshots' bytes are: the fingerprint tells snapshots apart as far as the
/// digest does.
pub proof fn lemma_fingerprint_follows_digest(a: Seq<ContentView>, b: Seq<ContentView>)
    ensures
        fingerprint_of(a) == fingerprint_of(b) <==> sha256(snapshot_bytes(a)) == sha256(
            snapshot_bytes(b),
        ),
{
    if fingerprint_of(a) == fingerprint_of(b) {
        lemma_hex_lower_injective(sha256(snapshot_bytes(a)), sha256(snapshot_bytes(b)));
    }
}

/// Writes bytes as lower-case hexadecimal, two digits per byte.
pub fn to_hex(bytes: &[u8]) -> (text: String)
    ensures
        text@ == hex_lower(bytes@),
{
    let mut text = String::new();
    let mut i: usize = 0;
    while i < bytes.len()
        invariant
            i <= bytes.len(),
            text@ == hex_lower(bytes@.take(i as int)),
        decreases bytes.len() - i,
    {
        let byte: u8 = bytes[i];
        text.append(digit_str(byte / 16));
        text.append(digit_str(byte % 16));
        proof {
            assert(bytes@.take(i + 1).drop_last() =~= bytes@.take(i as int));
        }
        i = i + 1;
    }
    proof {
        assert(bytes@.take(bytes.len() as int) =~= bytes@);
    }
    text
}

/// The fingerprint of a snapshot: the hexadecimal SHA-256 digest of its items'
/// bytes, streamed into the hash in snapshot order.
pub fn hash_contents(contents: &[MimeContent]) -> (digest: String)
    ensures
        digest@ == fingerprint_of(snapshot_view(contents@)),
        digest@.len() == 64,
{
    let mut stream = stream_new();
    let mut i: usize = 0;
    while i < contents.len()
        invariant
            i <= contents.len(),
            stream_input(stream) == snapshot_bytes(snapshot_view(contents@.take(i as int))),
        decreases contents.len() - i,
    {
        let item = &contents[i];
        stream_update(&mut stream, item.mime_type.as_str().as_bytes());
        stream_update(&mut stream, item.data.as_str().as_bytes());
        proof {
            assert(snapshot_view(contents@.take(i + 1)).drop_last() =~= snapshot_view(
                contents@.take(i as int),
            ));
        }
        i = i + 1;
    }
    proof {
        assert(contents@.take(contents.len() as int) =~= contents@);
        lemma_hex_lower_len(sha256(snapshot_bytes(snapshot_view(contents@))));
    }
    let raw = stream_finalize(stream);
    to_hex(raw.as_slice())
}

/// Whether a fingerprint differs from the one last delivered.
pub fn has_changed(new_digest: &str, last_digest: &str) -> (changed: bool)
    ensures
        changed == (new_digest@ != last_digest@),
{
    !str_eq(new_digest, last_digest)
}

} // verus!
