//! Reading the clipboard: which types to ask for, and how what a clipboard
//! tool printed becomes a snapshot.
//!
//! The caller runs the clipboard tool; the library reads what it printed.  A
//! listing of the offered types is a run of lines, a payload is the output of
//! one read.

use vstd::prelude::*;
use vstd::utf8::{decode_utf8, encode_utf8, valid_utf8};
use base64::Engine;
use crate::api::{snapshot_view, ContentView, MimeContent};
use crate::text::{bytes_eq, starts_with, strings_view};

verus! {

/// Something that can read the clipboard.  A reader gives an empty snapshot
/// where the clipboard holds nothing, and may leave out a type that it could
/// not read.
pub trait ClipboardReader {
    /// The current content of the clipboard, one item for each type read.
    fn read(&self) -> Vec<MimeContent>;
}

/// The types that are read from the clipboard, in the order in which they
/// appear in a snapshot.
pub open spec fn supported_types() -> Seq<Seq<char>> {
    seq!["text/plain"@, "text/html"@, "image/png"@]
}

/// The types that are read from the clipboard.
pub fn supported() -> (types: Vec<String>)
    ensures
        strings_view(types@) == supported_types(),
{
    let mut types: Vec<String> = Vec::new();
    types.push("text/plain".to_owned());
    types.push("text/html".to_owned());
    types.push("image/png".to_owned());
    types
}

/// A line without the carriage return that ends it, if one does.
pub open spec fn strip_cr(line: Seq<u8>) -> Seq<u8> {
    if line.len() > 0 && line.last() == 13u8 {
        line.drop_last()
    } else {
        line
    }
}

/// The lines found in a run of bytes, and the bytes after the last line
/// feed.
pub struct LineScan {
    pub lines: Seq<Seq<u8>>,
    pub current: Seq<u8>,
}

/// Reads bytes one by one: a line feed ends the current line, which loses a
/// carriage return just before it; any other byte joins the current line.
pub open spec fn scan_lines(bytes: Seq<u8>) -> LineScan
    decreases bytes.len(),
{
    if bytes.len() == 0 {
        LineScan { lines: Seq::<Seq<u8>>::empty(), current: Seq::<u8>::empty() }
    } else {
        let before = scan_lines(bytes.drop_last());
        if bytes.last() == 10u8 {
            LineScan {
                lines: before.lines.push(strip_cr(before.current)),
                current: Seq::<u8>::empty(),
            }
        } else {
            LineScan { lines: before.lines, current: before.current.push(bytes.last()) }
        }
    }
}

/// The lines of a run of bytes.  Lines end at a line feed or at a carriage
/// return followed by one; what follows the last line feed is a line too,
/// unless it is empty.
pub open spec fn byte_lines(bytes: Seq<u8>) -> Seq<Seq<u8>> {
    let scan = scan_lines(bytes);
    if scan.current.len() > 0 {
        scan.lines.push(scan.current)
    } else {
        scan.lines
    }
}

/// The views of a sequence of byte strings.
pub open spec fn rows_view(rows: Seq<Vec<u8>>) -> Seq<Seq<u8>> {
    rows.map_values(|row: Vec<u8>| row@)
}

/// Splits a run of bytes into its lines.
pub fn split_lines(bytes: &[u8]) -> (lines: Vec<Vec<u8>>)
    ensures
        rows_view(lines@) == byte_lines(bytes@),
{
    let mut lines: Vec<Vec<u8>> = Vec::new();
    let mut current: Vec<u8> = Vec::new();
    let mut i: usize = 0;
    while i < bytes.len()
        invariant
            i <= bytes.len(),
            rows_view(lines@) == scan_lines(bytes@.take(i as int)).lines,
            current@ == scan_lines(bytes@.take(i as int)).current,
        decreases bytes.len() - i,
    {
        let byte: u8 = bytes[i];
        proof {
            assert(bytes@.take(i + 1).drop_last() =~= bytes@.take(i as int));
        }
        if byte == 10 {
            let n = current.len();
            if n > 0 && current[n - 1] == 13 {
                current.pop();
            }
            lines.push(current);
            current = Vec::new();
        } else {
            current.push(byte);
        }
        i = i + 1;
    }
    proof {
        assert(bytes@.take(bytes.len() as int) =~= bytes@);
    }
    if current.len() > 0 {
        lines.push(current);
    }
    lines
}

/// Whether a listing of lines offers a type: one of its lines is the type's
/// name.
pub open spec fn offered(lines: Seq<Seq<u8>>, mime: Seq<char>) -> bool {
    exists|i: int| 0 <= i < lines.len() && lines[i] == encode_utf8(mime)
}

/// Those of `types` that the listing offers, in the order of `types`.
pub open spec fn offered_among(types: Seq<Seq<char>>, lines: Seq<Seq<u8>>) -> Seq<Seq<char>>
    decreases types.len(),
{
    if types.len() == 0 {
        Seq::<Seq<char>>::empty()
    } else {
        let rest = offered_among(types.drop_last(), lines);
        if offered(lines, types.last()) {
            rest.push(types.last())
        } else {
            rest
        }
    }
}

/// The types to read, given what the listing command printed and whether it
/// succeeded: the supported types that the listing offers.  A failed listing
/// offers nothing.
pub open spec fn selected_types(success: bool, listing: Seq<u8>) -> Seq<Seq<char>> {
    if success {
        offered_among(supported_types(), byte_lines(listing))
    } else {
        Seq::<Seq<char>>::empty()
    }
}

/// Whether one of `lines` is the name of the type `mime`.
fn is_offered(lines: &Vec<Vec<u8>>, mime: &str) -> (found: bool)
    ensures
        found == offered(rows_view(lines@), mime@),
{
    let name = mime.as_bytes();
    let mut i: usize = 0;
    while i < lines.len()
        invariant
            i <= lines.len(),
            name@ == encode_utf8(mime@),
            forall|k: int| 0 <= k < i ==> rows_view(lines@)[k] != encode_utf8(mime@),
        decreases lines.len() - i,
    {
        if bytes_eq(lines[i].as_slice(), name) {
            assert(rows_view(lines@)[i as int] == encode_utf8(mime@));
            return true;
        }
        i = i + 1;
    }
    false
}

/// Chooses the types to read from what the listing command printed.
pub fn select_targets(success: bool, listing: &[u8]) -> (targets: Vec<String>)
    ensures
        strings_view(targets@) == selected_types(success, listing@),
{
    let mut targets: Vec<String> = Vec::new();
    if !success {
        return targets;
    }
    let lines = split_lines(listing);
    let types = supported();
    let mut i: usize = 0;
    while i < types.len()
        invariant
            i <= types.len(),
            strings_view(types@) == supported_types(),
            rows_view(lines@) == byte_lines(listing@),
            strings_view(targets@) == offered_among(
                supported_types().take(i as int),
                byte_lines(listing@),
            ),
        decreases types.len() - i,
    {
        proof {
            assert(supported_types().take(i + 1).drop_last() =~= supported_types().take(i as int));
        }
        if is_offered(&lines, types[i].as_str()) {
            targets.push(types[i].clone());
        }
        i = i + 1;
    }
    proof {
        assert(supported_types().take(types.len() as int) =~= supported_types());
    }
    targets
}

/// The text that bytes decode to when every part that is not UTF-8 is
/// replaced by U+FFFD.
pub uninterp spec fn utf8_lossy(bytes: Seq<u8>) -> Seq<char>;

/// The base64 encoding of bytes in the standard alphabet, with padding.
pub uninterp spec fn base64_standard(bytes: Seq<u8>) -> Seq<char>;

/// `String::from_utf8_lossy`: the text of the bytes, with U+FFFD in place of
/// what is not UTF-8.  Bytes that are valid UTF-8 decode to their own text.
#[verifier::external_body]
fn lossy_text(bytes: &[u8]) -> (text: String)
    ensures
        text@ == utf8_lossy(bytes@),
        valid_utf8(bytes@) ==> text@ == decode_utf8(bytes@),
{
    String::from_utf8_lossy(bytes).into_owned()
}

/// `base64::Engine::encode` of the `STANDARD` engine.  The length of the
/// encoding must fit in `usize`, which it does for any bytes in memory.
#[verifier::external_body]
fn base64_text(bytes: &[u8]) -> (text: String)
    requires
        bytes@.len() <= isize::MAX,
    ensures
        text@ == base64_standard(bytes@),
{
    base64::engine::general_purpose::STANDARD.encode(bytes)
}

/// Whether a type's payload is text: its name begins with `text/`.
pub open spec fn is_text_type(mime: Seq<char>) -> bool {
    "text/"@.is_prefix_of(mime)
}

/// How a payload is carried: text as text, anything else base64-encoded.
pub open spec fn payload_text(mime: Seq<char>, stdout: Seq<u8>) -> Seq<char> {
    if is_text_type(mime) {
        utf8_lossy(stdout)
    } else {
        base64_standard(stdout)
    }
}

/// The item that one read gives: none where the read failed or printed
/// nothing.
pub open spec fn encoded_content(mime: Seq<char>, success: bool, stdout: Seq<u8>) -> Option<
    ContentView,
> {
    if success && stdout.len() > 0 {
        Some(ContentView { mime_type: mime, data: payload_text(mime, stdout) })
    } else {
        None
    }
}

/// The view of an item that may be absent.
pub open spec fn opt_content(content: Option<MimeContent>) -> Option<ContentView> {
    match content {
        Some(c) => Some(c@),
        None => None,
    }
}

/// Turns the output of one read of the type `mime` into an item.
pub fn encode_content(mime: &str, success: bool, stdout: &[u8]) -> (content: Option<MimeContent>)
    requires
        stdout@.len() <= isize::MAX,
    ensures
        opt_content(content) == encoded_content(mime@, success, stdout@),
{
    if !success || stdout.len() == 0 {
        return None;
    }
    let data = if starts_with(mime, "text/") {
        lossy_text(stdout)
    } else {
        base64_text(stdout)
    };
    Some(MimeContent { mime_type: mime.to_owned(), data })
}

/// What one read of the clipboard tool gave: the type asked for, whether the
/// tool succeeded, and what it printed.
#[derive(Debug)]
pub struct ReadOutput {
    pub mime_type: String,
    pub success: bool,
    pub stdout: Vec<u8>,
}

/// The mathematical value of a [`ReadOutput`].
pub struct OutputView {
    pub mime_type: Seq<char>,
    pub success: bool,
    pub stdout: Seq<u8>,
}

impl View for ReadOutput {
    type V = OutputView;

    open spec fn view(&self) -> OutputView {
        OutputView { mime_type: self.mime_type@, success: self.success, stdout: self.stdout@ }
    }
}

/// The views of a sequence of read outputs.
pub open spec fn outputs_view(outputs: Seq<ReadOutput>) -> Seq<OutputView> {
    outputs.map_values(|o: ReadOutput| o@)
}

/// The snapshot that a run of reads gives: the item of each read that gave
/// one, in the order of the reads.
pub open spec fn assembled(outputs: Seq<OutputView>) -> Seq<ContentView>
    decreases outputs.len(),
{
    if outputs.len() == 0 {
        Seq::<ContentView>::empty()
    } else {
        let rest = assembled(outputs.drop_last());
        let last = outputs.last();
        match encoded_content(last.mime_type, last.success, last.stdout) {
            Some(content) => rest.push(content),
            None => rest,
        }
    }
}

/// Builds the snapshot from the outputs of the reads, one read for each type
/// that was asked for.
pub fn build_snapshot(outputs: &[ReadOutput]) -> (snapshot: Vec<MimeContent>)
    requires
        forall|i: int| 0 <= i < outputs@.len() ==> outputs@[i].stdout@.len() <= isize::MAX,
    ensures
        snapshot_view(snapshot@) == assembled(outputs_view(outputs@)),
{
    let mut snapshot: Vec<MimeContent> = Vec::new();
    let mut i: usize = 0;
    while i < outputs.len()
        invariant
            i <= outputs.len(),
            forall|k: int| 0 <= k < outputs@.len() ==> outputs@[k].stdout@.len() <= isize::MAX,
            snapshot_view(snapshot@) == assembled(outputs_view(outputs@.take(i as int))),
        decreases outputs.len() - i,
    {
        let output = &outputs[i];
        proof {
            assert(outputs_view(outputs@.take(i + 1)).drop_last() =~= outputs_view(
                outputs@.take(i as int),
            ));
        }
        match encode_content(output.mime_type.as_str(), output.success, output.stdout.as_slice()) {
            Some(content) => {
                snapshot.push(content);
            },
            None => {},
        }
        i = i + 1;
    }
    proof {
        assert(outputs@.take(outputs.len() as int) =~= outputs@);
    }
    snapshot
}

/// Picks the clipboard backend: the first of the probed backends that is
/// available, by its place in the probing order.
pub fn first_available(probes: &[bool]) -> (choice: Option<usize>)
    ensures
        choice is Some ==> choice.unwrap() < probes@.len() && probes@[choice.unwrap() as int]
            && forall|k: int| 0 <= k < choice.unwrap() ==> !probes@[k],
        choice is None ==> forall|k: int| 0 <= k < probes@.len() ==> !probes@[k],
{
    let mut i: usize = 0;
    while i < probes.len()
        invariant
            i <= probes.len(),
            forall|k: int| 0 <= k < i ==> !probes@[k],
        decreases probes.len() - i,
    {
        if probes[i] {
            return Some(i);
        }
        i = i + 1;
    }
    None
}

} // verus!
