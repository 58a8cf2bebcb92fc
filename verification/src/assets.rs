//! A bundle of static files looked up by path, and the buffers through which
//! a host reads what was found.

use vstd::prelude::*;
use vstd::utf8::{decode_utf8, encode_utf8, is_ascii_chars, valid_utf8};
use crate::buffer::ascii;

verus! {

/// A directory of files held in memory, as `include_dir` builds it.
#[verifier::external_type_specification]
#[verifier::external_body]
pub struct ExDir<'a>(include_dir::Dir<'a>);

/// The contents of the file that a directory holds under a path, if it holds
/// one there.
pub uninterp spec fn dir_file(dir: include_dir::Dir<'static>, path: Seq<char>) -> Option<Seq<u8>>;

/// Calls `include_dir::Dir::get_file` and, on the file it finds,
/// `include_dir::File::contents`, of which it hands back a copy. The search
/// goes through nested directories and compares each entry's full path with
/// `path`; what it returns depends on the directory and the path alone.
#[verifier::external_body]
fn lookup_file(dir: &include_dir::Dir<'static>, path: &str) -> (contents: Option<Vec<u8>>)
    ensures
        contents.is_some() == dir_file(*dir, path@).is_some(),
        contents matches Some(bytes) ==> dir_file(*dir, path@) == Some(bytes@),
{
    match dir.get_file(path) {
        Some(file) => Some(file.contents().to_vec()),
        None => None,
    }
}

/// Calls `core::str::from_utf8`: bytes that are valid UTF-8 come back as a
/// string with those bytes, any others are turned down.
#[verifier::external_body]
fn text_of(bytes: &[u8]) -> (text: Option<&str>)
    ensures
        text.is_some() == valid_utf8(bytes@),
        text matches Some(s) ==> encode_utf8(s@) == bytes@,
{
    core::str::from_utf8(bytes).ok()
}

/// Calls `str::strip_prefix` with the character `/`: a string that starts
/// with a slash comes back without it.
#[verifier::external_body]
fn strip_slash(text: &str) -> (rest: Option<&str>)
    ensures
        rest.is_some() == (text@.len() > 0 && text@[0] == '/'),
        rest matches Some(s) ==> s@ == text@.skip(1),
{
    text.strip_prefix('/')
}

/// Whether `text` ends with `suffix`.
pub open spec fn ends_with(text: Seq<u8>, suffix: Seq<u8>) -> bool {
    suffix.len() <= text.len() && text.skip(text.len() - suffix.len()) == suffix
}

/// The media type that goes with a path, judged by its ending.
pub open spec fn mime_of(path: Seq<u8>) -> Seq<char> {
    if ends_with(path, ascii(".html"@)) {
        "text/html"@
    } else if ends_with(path, ascii(".js"@)) {
        "text/javascript"@
    } else if ends_with(path, ascii(".css"@)) {
        "text/css"@
    } else if ends_with(path, ascii(".json"@)) {
        "application/json"@
    } else if ends_with(path, ascii(".svg"@)) {
        "image/svg+xml"@
    } else if ends_with(path, ascii(".png"@)) {
        "image/png"@
    } else if ends_with(path, ascii(".jpg"@)) || ends_with(path, ascii(".jpeg"@)) {
        "image/jpeg"@
    } else if ends_with(path, ascii(".webp"@)) {
        "image/webp"@
    } else if ends_with(path, ascii(".woff2"@)) {
        "font/woff2"@
    } else if ends_with(path, ascii(".woff"@)) {
        "font/woff"@
    } else if ends_with(path, ascii(".ttf"@)) {
        "font/ttf"@
    } else {
        "application/octet-stream"@
    }
}

/// Whether the bytes of `path` end with the ASCII text `suffix`.
pub fn has_suffix(path: &[u8], suffix: &str) -> (found: bool)
    requires
        is_ascii_chars(suffix@),
    ensures
        found == ends_with(path@, ascii(suffix@)),
{
    let tail = suffix.as_bytes();
    proof {
        vstd::string::is_ascii_spec_bytes(suffix);
    }
    assert(tail@ =~= ascii(suffix@));
    if tail.len() > path.len() {
        return false;
    }
    let start: usize = path.len() - tail.len();
    let mut i: usize = 0;
    while i < tail.len()
        invariant
            i <= tail@.len() <= path@.len() <= usize::MAX,
            start == path@.len() - tail@.len(),
            tail@ == ascii(suffix@),
            forall|k: int| 0 <= k < i ==> path@[start + k] == #[trigger] tail@[k],
        decreases tail@.len() - i,
    {
        if path[start + i] != tail[i] {
            assert(path@.skip(start as int)[i as int] != tail@[i as int]);
            return false;
        }
        i += 1;
    }
    assert(path@.skip(start as int) =~= tail@);
    true
}

/// The media type of the file at `path`, judged by the path's ending;
/// `application/octet-stream` for an ending that is not known.
pub fn mime_for_path(path: &str) -> (mime: &'static str)
    ensures
        mime@ == mime_of(encode_utf8(path@)),
        is_ascii_chars(mime@),
{
    proof {
        reveal_strlit(".html");
        reveal_strlit(".js");
        reveal_strlit(".css");
        reveal_strlit(".json");
        reveal_strlit(".svg");
        reveal_strlit(".png");
        reveal_strlit(".jpg");
        reveal_strlit(".jpeg");
        reveal_strlit(".webp");
        reveal_strlit(".woff2");
        reveal_strlit(".woff");
        reveal_strlit(".ttf");
        reveal_strlit("text/html");
        reveal_strlit("text/javascript");
        reveal_strlit("text/css");
        reveal_strlit("application/json");
        reveal_strlit("image/svg+xml");
        reveal_strlit("image/png");
        reveal_strlit("image/jpeg");
        reveal_strlit("image/webp");
        reveal_strlit("font/woff2");
        reveal_strlit("font/woff");
        reveal_strlit("font/ttf");
        reveal_strlit("application/octet-stream");
    }
    let bytes = path.as_bytes();
    if has_suffix(bytes, ".html") {
        "text/html"
    } else if has_suffix(bytes, ".js") {
        "text/javascript"
    } else if has_suffix(bytes, ".css") {
        "text/css"
    } else if has_suffix(bytes, ".json") {
        "application/json"
    } else if has_suffix(bytes, ".svg") {
        "image/svg+xml"
    } else if has_suffix(bytes, ".png") {
        "image/png"
    } else if has_suffix(bytes, ".jpg") || has_suffix(bytes, ".jpeg") {
        "image/jpeg"
    } else if has_suffix(bytes, ".webp") {
        "image/webp"
    } else if has_suffix(bytes, ".woff2") {
        "font/woff2"
    } else if has_suffix(bytes, ".woff") {
        "font/woff"
    } else if has_suffix(bytes, ".ttf") {
        "font/ttf"
    } else {
        "application/octet-stream"
    }
}

/// The buffers a host reads from: the paths of the files in the bundle, the
/// file fetched last with its media type, and the data the host handed over
/// last.
pub struct AssetStore {
    pub file_paths: Vec<Vec<u8>>,
    pub last_file: Vec<u8>,
    pub last_file_mime: Vec<u8>,
    pub wp_data: Vec<u8>,
}

/// The entry that the path list holds for the file at `path`: a slash, the
/// path, and a zero byte.
pub open spec fn path_entry(path: Seq<char>) -> Seq<u8> {
    seq![47u8] + encode_utf8(path) + seq![0u8]
}

/// The path that a request names: the request as text, without its leading
/// slash if it has one. A request that is empty or not valid UTF-8 names
/// none.
pub open spec fn requested_path(request: Seq<u8>) -> Option<Seq<char>> {
    if request.len() == 0 || !valid_utf8(request) {
        None
    } else {
        let text = decode_utf8(request);
        if text.len() > 0 && text[0] == '/' {
            Some(text.skip(1))
        } else {
            Some(text)
        }
    }
}

/// The media type buffer for the file at `path`: the type's text and a zero
/// byte.
pub open spec fn mime_entry(path: Seq<char>) -> Seq<u8> {
    ascii(mime_of(encode_utf8(path))) + seq![0u8]
}

impl AssetStore {
    /// Every entry of the path list ends with its zero byte.
    pub open spec fn wf(&self) -> bool {
        forall|i: int| 0 <= i < self.file_paths@.len() ==> (#[trigger] self.file_paths@[i])@.len() > 0
    }

    /// The store as it is after the file at `path` was found with the
    /// contents `contents`.
    pub open spec fn holds_file(&self, before: AssetStore, path: Seq<char>, contents: Seq<u8>) -> bool {
        &&& self.last_file@ == contents
        &&& self.last_file_mime@ == mime_entry(path)
        &&& self.file_paths == before.file_paths
        &&& self.wp_data == before.wp_data
    }

    /// Checks the store at run time: whether it is consistent.
    pub fn is_consistent(&self) -> (ok: bool)
        ensures
            ok == self.wf(),
    {
        let mut i: usize = 0;
        while i < self.file_paths.len()
            invariant
                i <= self.file_paths@.len(),
                forall|k: int| 0 <= k < i ==> (#[trigger] self.file_paths@[k])@.len() > 0,
            decreases self.file_paths@.len() - i,
        {
            if self.file_paths[i].len() == 0 {
                return false;
            }
            i += 1;
        }
        true
    }

    /// A store over the given path list, with nothing fetched and nothing
    /// received yet.
    pub fn new(file_paths: Vec<Vec<u8>>) -> (store: AssetStore)
        ensures
            store.file_paths == file_paths,
            store.last_file@ == Seq::<u8>::empty(),
            store.last_file_mime@ == Seq::<u8>::empty(),
            store.wp_data@ == Seq::<u8>::empty(),
    {
        AssetStore {
            file_paths,
            last_file: Vec::new(),
            last_file_mime: Vec::new(),
            wp_data: Vec::new(),
        }
    }
}

/// The entry of the path list for the file at `path`.
pub fn file_path_entry(path: &str) -> (entry: Vec<u8>)
    ensures
        entry@ == path_entry(path@),
{
    let mut entry: Vec<u8> = Vec::new();
    entry.push(47);
    entry.extend_from_slice(path.as_bytes());
    entry.push(0);
    assert(entry@ =~= path_entry(path@));
    entry
}

/// Number of files in the bundle.
pub fn get_file_count(store: &AssetStore) -> (count: usize)
    ensures
        count == store.file_paths@.len(),
{
    store.file_paths.len()
}

/// Length of the path of file `index`, without the closing zero byte; zero
/// if there is no such file.
pub fn get_file_path_len(store: &AssetStore, index: usize) -> (len: usize)
    requires
        store.wf(),
    ensures
        index < store.file_paths@.len() ==> len == store.file_paths@[index as int]@.len() - 1,
        index >= store.file_paths@.len() ==> len == 0,
{
    if index < store.file_paths.len() {
        store.file_paths[index].len() - 1
    } else {
        0
    }
}

/// Turns a request into the path it names.
pub fn request_path(request: &[u8]) -> (path: Option<&str>)
    ensures
        path.is_some() == requested_path(request@).is_some(),
        path matches Some(p) ==> requested_path(request@) == Some(p@),
{
    broadcast use vstd::utf8::encode_utf8_decode_utf8;

    if request.len() == 0 {
        return None;
    }
    match text_of(request) {
        Some(text) => {
            assert(text@ == decode_utf8(request@));
            match strip_slash(text) {
                Some(rest) => Some(rest),
                None => Some(text),
            }
        },
        None => None,
    }
}

/// Takes in what a lookup of `path` gave: a file that was found is copied
/// into the store together with its media type, and the result is 1; a miss
/// leaves the store as it is, and the result is 0.
pub fn store_file(store: &mut AssetStore, path: &str, found: Option<Vec<u8>>) -> (status: i32)
    ensures
        found is None ==> status == 0 && *final(store) == *old(store),
        found matches Some(contents) ==> status == 1 && final(store).holds_file(
            *old(store),
            path@,
            contents@,
        ),
{
    match found {
        Some(contents) => {
            store.last_file.clear();
            store.last_file.extend_from_slice(contents.as_slice());
            assert(store.last_file@ =~= contents@);

            let mime = mime_for_path(path);
            proof {
                vstd::string::is_ascii_spec_bytes(mime);
            }
            store.last_file_mime.clear();
            store.last_file_mime.extend_from_slice(mime.as_bytes());
            store.last_file_mime.push(0);
            assert(store.last_file_mime@ =~= mime_entry(path@));
            1
        },
        None => 0,
    }
}

/// Fetches the file that `request` names out of `dir` into the store,
/// together with its media type, and returns 1. Returns 0 and leaves the
/// store as it is if the request names no path or `dir` holds no file there.
pub fn get_file(store: &mut AssetStore, dir: &include_dir::Dir<'static>, request: &[u8]) -> (status:
    i32)
    ensures
        match requested_path(request@) {
            Some(path) => match dir_file(*dir, path) {
                Some(contents) => status == 1 && final(store).holds_file(
                    *old(store),
                    path,
                    contents,
                ),
                None => status == 0 && *final(store) == *old(store),
            },
            None => status == 0 && *final(store) == *old(store),
        },
{
    match request_path(request) {
        Some(path) => {
            let found = lookup_file(dir, path);
            store_file(store, path, found)
        },
        None => 0,
    }
}

/// Length of the file fetched last.
pub fn get_last_file_len(store: &AssetStore) -> (len: usize)
    ensures
        len == store.last_file@.len(),
{
    store.last_file.len()
}

/// Length of the media type of the file fetched last, without the closing
/// zero byte; zero if no file was fetched yet.
pub fn get_last_file_mime_len(store: &AssetStore) -> (len: usize)
    ensures
        store.last_file_mime@.len() == 0 ==> len == 0,
        store.last_file_mime@.len() > 0 ==> len == store.last_file_mime@.len() - 1,
{
    let len = store.last_file_mime.len();
    if len == 0 {
        0
    } else {
        len - 1
    }
}

/// Takes over the data a host hands in and returns 1. Empty data is turned
/// down: the result is 0 and the store stays as it is.
pub fn receive_wp_data(store: &mut AssetStore, data: &[u8]) -> (status: i32)
    ensures
        data@.len() == 0 ==> status == 0 && *final(store) == *old(store),
        data@.len() > 0 ==> {
            &&& status == 1
            &&& final(store).wp_data@ == data@
            &&& final(store).file_paths == old(store).file_paths
            &&& final(store).last_file == old(store).last_file
            &&& final(store).last_file_mime == old(store).last_file_mime
        },
{
    if data.len() == 0 {
        return 0;
    }
    store.wp_data.clear();
    store.wp_data.extend_from_slice(data);
    assert(store.wp_data@ =~= data@);
    1
}

/// Length of the data received last.
pub fn get_wp_data_len(store: &AssetStore) -> (len: usize)
    ensures
        len == store.wp_data@.len(),
{
    store.wp_data.len()
}

} // verus!
