//! Clipboard content items and the upload endpoint.

use vstd::prelude::*;

verus! {

/// The mathematical value of a [`MimeContent`]: its two strings as sequences
/// of characters.
pub struct ContentView {
    pub mime_type: Seq<char>,
    pub data: Seq<char>,
}

/// One representation of the clipboard: a MIME type and its payload.  Text
/// payloads are carried as text, binary payloads base64-encoded.
#[derive(Debug)]
pub struct MimeContent {
    pub mime_type: String,
    pub data: String,
}

impl View for MimeContent {
    type V = ContentView;

    open spec fn view(&self) -> ContentView {
        ContentView { mime_type: self.mime_type@, data: self.data@ }
    }
}

impl Clone for MimeContent {
    fn clone(&self) -> (copy: Self)
        ensures
            copy@ == self@,
    {
        MimeContent { mime_type: self.mime_type.clone(), data: self.data.clone() }
    }
}

/// The views of the items of a snapshot, in snapshot order.
pub open spec fn snapshot_view(items: Seq<MimeContent>) -> Seq<ContentView> {
    items.map_values(|c: MimeContent| c@)
}

/// A URL without the slashes that end it.
pub open spec fn trim_trailing_slashes(url: Seq<char>) -> Seq<char>
    decreases url.len(),
{
    if url.len() > 0 && url.last() == '/' {
        trim_trailing_slashes(url.drop_last())
    } else {
        url
    }
}

/// The address that entries are posted to on the server at `url`.
pub open spec fn entries_endpoint(url: Seq<char>) -> Seq<char> {
    trim_trailing_slashes(url) + "/api/entries"@
}

/// The address that entries are posted to on the server at `server_url`: the
/// path `/api/entries` under it, whether or not the URL ends in a slash.
pub fn entries_url(server_url: &str) -> (url: String)
    ensures
        url@ == entries_endpoint(server_url@),
{
    let mut n: usize = server_url.unicode_len();
    proof {
        assert(server_url@.take(n as int) =~= server_url@);
    }
    while n > 0 && server_url.get_char(n - 1) == '/'
        invariant
            n <= server_url@.len(),
            trim_trailing_slashes(server_url@) == trim_trailing_slashes(server_url@.take(n as int)),
        decreases n,
    {
        proof {
            assert(server_url@.take(n as int).drop_last() =~= server_url@.take(n - 1));
        }
        n = n - 1;
    }
    let mut url = server_url.substring_char(0, n).to_owned();
    url.append("/api/entries");
    url
}

} // verus!
