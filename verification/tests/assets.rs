use demo_room::assets::{
    file_path_entry, get_file, get_file_count, get_file_path_len, get_last_file_len,
    get_last_file_mime_len, get_wp_data_len, has_suffix, mime_for_path, receive_wp_data,
    request_path, store_file, AssetStore,
};
use include_dir::{Dir, DirEntry, File};

fn bundle() -> Dir<'static> {
    let css: &'static [DirEntry<'static>] = Box::leak(Box::new([
        DirEntry::File(File::new("css/site.css", b"body{}")),
        DirEntry::File(File::new("css/empty.bin", b"")),
    ]));
    let entries: &'static [DirEntry<'static>] = Box::leak(Box::new([
        DirEntry::File(File::new("index.html", b"<html></html>")),
        DirEntry::Dir(Dir::new("css", css)),
        DirEntry::File(File::new("data.json", b"{\"a\":1}")),
    ]));
    Dir::new("", entries)
}

fn store() -> AssetStore {
    AssetStore::new(vec![
        file_path_entry("index.html"),
        file_path_entry("css/site.css"),
        file_path_entry("data.json"),
    ])
}

#[test]
fn mime_by_ending() {
    assert_eq!(mime_for_path("index.html"), "text/html");
    assert_eq!(mime_for_path("app.js"), "text/javascript");
    assert_eq!(mime_for_path("css/site.css"), "text/css");
    assert_eq!(mime_for_path("data.json"), "application/json");
    assert_eq!(mime_for_path("logo.svg"), "image/svg+xml");
    assert_eq!(mime_for_path("logo.png"), "image/png");
    assert_eq!(mime_for_path("photo.jpg"), "image/jpeg");
    assert_eq!(mime_for_path("photo.jpeg"), "image/jpeg");
    assert_eq!(mime_for_path("photo.webp"), "image/webp");
    assert_eq!(mime_for_path("font.woff2"), "font/woff2");
    assert_eq!(mime_for_path("font.woff"), "font/woff");
    assert_eq!(mime_for_path("font.ttf"), "font/ttf");
}

#[test]
fn mime_of_an_unknown_ending() {
    assert_eq!(mime_for_path("archive.zip"), "application/octet-stream");
    assert_eq!(mime_for_path(""), "application/octet-stream");
    assert_eq!(mime_for_path("html"), "application/octet-stream");
    assert_eq!(mime_for_path("index.HTML"), "application/octet-stream");
    assert_eq!(mime_for_path("index.html.bak"), "application/octet-stream");
    assert_eq!(mime_for_path("js"), "application/octet-stream");
}

#[test]
fn mime_looks_at_the_ending_only() {
    assert_eq!(mime_for_path(".html"), "text/html");
    assert_eq!(mime_for_path("a.css.js"), "text/javascript");
    assert_eq!(mime_for_path("a.js.css"), "text/css");
    assert_eq!(mime_for_path("caf\u{e9}.png"), "image/png");
    assert_eq!(mime_for_path("x.json.html"), "text/html");
}

#[test]
fn suffix_test() {
    assert!(has_suffix(b"index.html", ".html"));
    assert!(has_suffix(b".html", ".html"));
    assert!(!has_suffix(b"html", ".html"));
    assert!(!has_suffix(b"index.htm", ".html"));
    assert!(has_suffix(b"anything", ""));
    assert!(has_suffix(b"", ""));
    assert!(!has_suffix(b"", "a"));
    assert!(!has_suffix(b"index.html ", ".html"));
}

#[test]
fn path_entry_has_slash_and_terminator() {
    assert_eq!(file_path_entry("index.html"), b"/index.html\0");
    assert_eq!(file_path_entry(""), b"/\0");
    assert_eq!(file_path_entry("caf\u{e9}"), b"/caf\xc3\xa9\0");
}

#[test]
fn file_count_and_path_lengths() {
    let store = store();
    assert_eq!(get_file_count(&store), 3);
    assert_eq!(get_file_path_len(&store, 0), 11);
    assert_eq!(get_file_path_len(&store, 1), 13);
    assert_eq!(get_file_path_len(&store, 2), 10);
    assert_eq!(get_file_path_len(&store, 3), 0);
    assert_eq!(get_file_path_len(&store, usize::MAX), 0);
    let empty = AssetStore::new(Vec::new());
    assert_eq!(get_file_count(&empty), 0);
    assert_eq!(get_file_path_len(&empty, 0), 0);
}

#[test]
fn request_is_turned_into_a_path() {
    assert_eq!(request_path(b"/index.html"), Some("index.html"));
    assert_eq!(request_path(b"index.html"), Some("index.html"));
    assert_eq!(request_path(b"//index.html"), Some("/index.html"));
    assert_eq!(request_path(b"/"), Some(""));
    assert_eq!(request_path(b"/caf\xc3\xa9"), Some("caf\u{e9}"));
}

#[test]
fn bad_request_names_no_path() {
    assert_eq!(request_path(b""), None);
    assert_eq!(request_path(b"/\xff"), None);
    assert_eq!(request_path(b"\xc3"), None);
    assert_eq!(request_path(b"a\x80"), None);
}

#[test]
fn fetch_of_a_file_fills_the_buffers() {
    let dir = bundle();
    let mut store = store();
    assert_eq!(get_last_file_len(&store), 0);
    assert_eq!(get_last_file_mime_len(&store), 0);

    assert_eq!(get_file(&mut store, &dir, b"/index.html"), 1);
    assert_eq!(store.last_file, b"<html></html>");
    assert_eq!(store.last_file_mime, b"text/html\0");
    assert_eq!(get_last_file_len(&store), 13);
    assert_eq!(get_last_file_mime_len(&store), 9);

    assert_eq!(get_file(&mut store, &dir, b"css/site.css"), 1);
    assert_eq!(store.last_file, b"body{}");
    assert_eq!(store.last_file_mime, b"text/css\0");
    assert_eq!(get_last_file_len(&store), 6);
    assert_eq!(get_last_file_mime_len(&store), 8);
    assert_eq!(get_file_count(&store), 3);
}

#[test]
fn fetch_of_an_empty_file() {
    let dir = bundle();
    let mut store = store();
    assert_eq!(get_file(&mut store, &dir, b"/index.html"), 1);
    assert_eq!(get_file(&mut store, &dir, b"/css/empty.bin"), 1);
    assert_eq!(get_last_file_len(&store), 0);
    assert_eq!(store.last_file_mime, b"application/octet-stream\0");
    assert_eq!(get_last_file_mime_len(&store), 24);
}

#[test]
fn failed_fetch_keeps_the_last_file() {
    let dir = bundle();
    let mut store = store();
    assert_eq!(get_file(&mut store, &dir, b"/data.json"), 1);
    assert_eq!(get_file(&mut store, &dir, b"/missing.html"), 0);
    assert_eq!(get_file(&mut store, &dir, b""), 0);
    assert_eq!(get_file(&mut store, &dir, b"/\xff\xfe"), 0);
    assert_eq!(get_file(&mut store, &dir, b"/css"), 0);
    assert_eq!(get_file(&mut store, &dir, b"/"), 0);
    assert_eq!(store.last_file, b"{\"a\":1}");
    assert_eq!(store.last_file_mime, b"application/json\0");
}

#[test]
fn store_file_takes_what_was_found() {
    let mut store = store();
    assert_eq!(store_file(&mut store, "logo.png", Some(vec![1, 2, 3])), 1);
    assert_eq!(store.last_file, [1, 2, 3]);
    assert_eq!(store.last_file_mime, b"image/png\0");
    assert_eq!(store_file(&mut store, "index.html", None), 0);
    assert_eq!(store.last_file, [1, 2, 3]);
    assert_eq!(store.last_file_mime, b"image/png\0");
    assert_eq!(store_file(&mut store, "x", Some(Vec::new())), 1);
    assert_eq!(store.last_file, b"");
    assert_eq!(store.last_file_mime, b"application/octet-stream\0");
}

#[test]
fn received_data_replaces_what_was_there() {
    let mut store = store();
    assert_eq!(get_wp_data_len(&store), 0);
    assert_eq!(receive_wp_data(&mut store, b"{\"posts\":[]}"), 1);
    assert_eq!(store.wp_data, b"{\"posts\":[]}");
    assert_eq!(get_wp_data_len(&store), 12);
    assert_eq!(receive_wp_data(&mut store, b"x"), 1);
    assert_eq!(store.wp_data, b"x");
    assert_eq!(get_wp_data_len(&store), 1);
}

#[test]
fn empty_data_is_turned_down() {
    let mut store = store();
    assert_eq!(receive_wp_data(&mut store, b""), 0);
    assert_eq!(get_wp_data_len(&store), 0);
    assert_eq!(receive_wp_data(&mut store, b"abc"), 1);
    assert_eq!(receive_wp_data(&mut store, b""), 0);
    assert_eq!(store.wp_data, b"abc");
}

#[test]
fn store_with_an_empty_entry_is_not_consistent() {
    assert!(store().is_consistent());
    assert!(AssetStore::new(Vec::new()).is_consistent());
    let broken = AssetStore::new(vec![file_path_entry("a"), Vec::new()]);
    assert!(!broken.is_consistent());
}
