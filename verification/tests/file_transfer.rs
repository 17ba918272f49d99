use native_shell::app::ClipboardItem;
use native_shell::file_transfer::{
    files_of_paths, listing_of, payload_of_urls, ExternalPaths, FileTransfer,
    FileTransferOperation, COPIED_FILES_MIME, FILE_TRANSFER_MIME, KDE_CUT_MIME, URI_LIST_MIME,
};
use native_shell::file_url::{local_file_path, UrlParts};
use native_shell::paths::PathSystem;
use std::path::PathBuf;

fn here() -> PathSystem {
    PathSystem::of_this_machine()
}

fn windows() -> bool {
    here().is_windows()
}

fn decode(bytes: &[u8], mime: &str) -> Option<FileTransfer> {
    FileTransfer::decode(bytes, mime, here())
}

#[test]
fn nautilus_payload_has_lf_separators_and_no_empty_lines() {
    let root = if windows() { "C:/tmp" } else { "/tmp" };
    let urls = if windows() {
        ["file:///C:/tmp/a", "file:///C:/tmp/b"]
    } else {
        ["file:///tmp/a", "file:///tmp/b"]
    };
    let files = FileTransfer {
        paths: ExternalPaths::new(vec![
            PathBuf::from(root).join("a"),
            PathBuf::from(root).join("b"),
        ]),
        operation: FileTransferOperation::Copy,
        ownership: 7,
    };
    assert_eq!(
        files.encode(COPIED_FILES_MIME, here()).unwrap(),
        format!("copy\n{}\n{}", urls[0], urls[1]).as_bytes()
    );
    assert_eq!(
        files.uri_list(here()),
        format!("{}\r\n{}\r\n", urls[0], urls[1]).as_bytes()
    );
}

#[test]
fn native_names_roundtrip_without_treating_text_as_files() {
    let files = FileTransfer {
        paths: ExternalPaths::new(vec![PathBuf::from(if windows() {
            "C:/tmp/a b#%.txt"
        } else {
            "/tmp/a b\n#%.txt"
        })]),
        operation: FileTransferOperation::Move,
        ownership: 19,
    };
    assert_eq!(
        decode(
            &files.encode(FILE_TRANSFER_MIME, here()).unwrap(),
            FILE_TRANSFER_MIME
        ),
        Some(files)
    );
    assert!(decode(b"/tmp/file", URI_LIST_MIME).is_none());
    assert!(decode(b"file://host/remote", URI_LIST_MIME).is_none());
    assert!(ClipboardItem::new_string("/tmp/file".into())
        .file_transfer()
        .is_none());
}

#[test]
fn a_slash_is_enough_of_a_root_outside_of_windows() {
    assert_eq!(PathBuf::from("/tmp").is_absolute(), !windows());
}

fn transfer(paths: &[&str], operation: FileTransferOperation, ownership: u64) -> FileTransfer {
    FileTransfer {
        paths: ExternalPaths::new(paths.iter().map(PathBuf::from).collect()),
        operation,
        ownership,
    }
}

fn text(files: &FileTransfer, mime: &str) -> String {
    String::from_utf8(files.encode(mime, here()).unwrap()).unwrap()
}

#[test]
fn each_format_has_its_own_payload() {
    let files = transfer(&["/tmp/a b", "/x"], FileTransferOperation::Move, 42);
    assert_eq!(text(&files, URI_LIST_MIME), "file:///tmp/a%20b\r\nfile:///x\r\n");
    assert_eq!(text(&files, COPIED_FILES_MIME), "cut\nfile:///tmp/a%20b\nfile:///x");
    assert_eq!(
        text(&files, FILE_TRANSFER_MIME),
        "cut\n42\nfile:///tmp/a%20b\r\nfile:///x\r\n"
    );
    assert_eq!(text(&files, KDE_CUT_MIME), "1");
    assert_eq!(
        text(&transfer(&["/x"], FileTransferOperation::Copy, 0), KDE_CUT_MIME),
        "0"
    );
    assert!(files.encode("text/plain", here()).is_none());
}

#[test]
fn relative_pathnames_have_no_url() {
    let files = transfer(&["a", "/b", ""], FileTransferOperation::Copy, 0);
    assert_eq!(files.uri_list(here()), b"file:///b\r\n");
    assert_eq!(text(&files, COPIED_FILES_MIME), "copy\nfile:///b");
    let none = transfer(&["a"], FileTransferOperation::Copy, 0);
    assert_eq!(text(&none, COPIED_FILES_MIME), "copy\n");
    assert!(none.uri_list(here()).is_empty());
}

#[test]
fn every_typed_format_gives_the_files_back() {
    // Two bytes of this name are not UTF-8.
    let odd = decode(b"file:///tmp/%FF%FE%20%23%3F%25%0A.bin", URI_LIST_MIME)
        .unwrap()
        .paths
        .paths()[0]
        .clone();
    assert!(odd.to_str().is_none());
    let files = FileTransfer {
        paths: ExternalPaths::new(vec![odd, PathBuf::from("/home/\u{e9}/x y"), "/".into()]),
        operation: FileTransferOperation::Move,
        ownership: u64::MAX,
    };
    for (mime, operation, ownership) in [
        (URI_LIST_MIME, FileTransferOperation::Copy, 0),
        (COPIED_FILES_MIME, FileTransferOperation::Move, 0),
        (FILE_TRANSFER_MIME, FileTransferOperation::Move, u64::MAX),
    ] {
        let back = decode(&files.encode(mime, here()).unwrap(), mime).unwrap();
        assert_eq!(back.paths, files.paths);
        assert_eq!(back.operation, operation);
        assert_eq!(back.ownership, ownership);
    }
}

#[test]
fn a_name_that_means_something_in_a_url_is_not_kept() {
    let files = transfer(&["/a/../b"], FileTransferOperation::Copy, 0);
    let back = decode(&files.uri_list(here()), URI_LIST_MIME).unwrap();
    assert_ne!(back, files);
}

#[test]
fn comments_and_empty_lines_are_passed_over() {
    let back = decode(
        b"# files\r\n\r\nfile:///a\r\nfile://localhost/b\n",
        URI_LIST_MIME,
    )
    .unwrap();
    assert_eq!(back, transfer(&["/a", "/b"], FileTransferOperation::Copy, 0));
    let last = decode(b"cut\nfile:///a", COPIED_FILES_MIME).unwrap();
    assert_eq!(last, transfer(&["/a"], FileTransferOperation::Move, 0));
}

#[test]
fn anything_else_than_local_files_is_refused() {
    for bytes in [
        &b"file:///a\nhttp://host/b"[..],
        b"file:///a?query",
        b"file:///a#fragment",
        b"file:///a\nno url",
        b"",
        b"# only a comment\n",
        b"file:///\xff",
    ] {
        assert!(decode(bytes, URI_LIST_MIME).is_none());
    }
    for bytes in [&b"link\nfile:///a"[..], b"copy\n", b"", b"Copy\nfile:///a"] {
        assert!(decode(bytes, COPIED_FILES_MIME).is_none());
    }
    for bytes in [
        &b"copy\nfile:///a"[..],
        b"copy\n-1\nfile:///a",
        b"copy\n18446744073709551616\nfile:///a",
        b"copy\n\nfile:///a",
        b"copy",
    ] {
        assert!(decode(bytes, FILE_TRANSFER_MIME).is_none());
    }
    assert!(decode(b"1", KDE_CUT_MIME).is_none());
    assert!(decode(b"copy\n+7\nfile:///a", FILE_TRANSFER_MIME).is_some());
}

#[test]
fn the_default_operation_is_a_copy() {
    assert_eq!(FileTransferOperation::default(), FileTransferOperation::Copy);
}

#[test]
fn clones_are_equal() {
    let files = transfer(&["/a", "/b", "/c"], FileTransferOperation::Move, 9);
    assert_eq!(files.clone(), files);
    assert_eq!(files.paths.paths().len(), 3);
}

#[test]
fn payloads_follow_the_urls() {
    let urls: Vec<String> = vec!["file:///C:/a".to_string(), "file:///b".to_string()];
    let payload = |mime: &str| {
        payload_of_urls(&urls, FileTransferOperation::Copy, 5, mime)
            .map(|bytes| String::from_utf8(bytes).unwrap())
    };
    assert_eq!(
        payload(URI_LIST_MIME).as_deref(),
        Some("file:///C:/a\r\nfile:///b\r\n")
    );
    assert_eq!(
        payload(COPIED_FILES_MIME).as_deref(),
        Some("copy\nfile:///C:/a\nfile:///b")
    );
    assert_eq!(
        payload(FILE_TRANSFER_MIME).as_deref(),
        Some("copy\n5\nfile:///C:/a\r\nfile:///b\r\n")
    );
    assert_eq!(payload(KDE_CUT_MIME).as_deref(), Some("0"));
    assert_eq!(payload("text/plain"), None);
}

#[test]
fn listings_are_read_before_their_lines() {
    let listing = listing_of(b"cut\n8\n\n# note\nfile:///a\nanything\n", FILE_TRANSFER_MIME)
        .unwrap_or_else(|| panic!("a listing"));
    assert_eq!(listing.operation, FileTransferOperation::Move);
    assert_eq!(listing.ownership, 8);
    assert_eq!(listing.lines, ["file:///a", "anything"]);
    assert!(listing_of(b"move\nfile:///a", COPIED_FILES_MIME).is_none());
    assert!(listing_of(b"\xff", URI_LIST_MIME).is_none());
    assert!(listing_of(b"", URI_LIST_MIME).is_some());
}

#[test]
fn every_line_has_to_give_a_path() {
    let path = |name: &str| Some(PathBuf::from(name));
    let files = files_of_paths(
        vec![path("C:/a"), path("b")],
        FileTransferOperation::Move,
        3,
    );
    assert_eq!(
        files,
        Some(transfer(&["C:/a", "b"], FileTransferOperation::Move, 3))
    );
    let copy = FileTransferOperation::Copy;
    assert_eq!(files_of_paths(vec![path("/a"), None], copy, 0), None);
    assert_eq!(files_of_paths(vec![], copy, 0), None);
}

#[test]
fn names_like_drives_read_back() {
    for name in ["/C|", "/C|/x", "/C:", "/C:/x", "/a/C|"] {
        if !windows() {
            let files = transfer(&[name], FileTransferOperation::Copy, 0);
            assert_eq!(decode(&files.uri_list(here()), URI_LIST_MIME), Some(files));
        }
    }
}

fn parts(path: &str) -> UrlParts {
    UrlParts {
        scheme: "file".to_string(),
        host: None,
        path: path.to_string(),
        query: None,
        fragment: None,
    }
}

#[test]
fn a_bare_drive_is_no_file_on_windows() {
    for path in ["/C:", "/z%3a", "/Q%3A"] {
        assert!(parts(path).is_bare_drive());
    }
    for path in ["/C:/", "/C|", "/CC:", "/", "/1:", "C:", "/C%3B", "/C:a"] {
        assert!(!parts(path).is_bare_drive());
    }
    assert_eq!(local_file_path("file:///C:", here()).is_none(), windows());
}

#[test]
fn only_urls_of_this_host_name_local_files() {
    assert!(parts("/a").names_local_file());
    let host = |host: &str| UrlParts {
        host: Some(host.to_string()),
        ..parts("/a")
    };
    assert!(host("").names_local_file());
    assert!(host("localhost").names_local_file());
    assert!(!host("other").names_local_file());
    let http = UrlParts {
        scheme: "http".to_string(),
        ..parts("/a")
    };
    assert!(!http.names_local_file());
}

#[test]
fn every_url_is_printing_ascii_on_a_line_of_its_own() {
    let root = if windows() { "C:\\" } else { "/" };
    let names = ["two\r\nlines", "tab\there", "\u{00e9}\u{4e2d}", "a b#c?d%e", "#comment"];
    let paths: Vec<String> = names.iter().map(|name| format!("{root}{name}")).collect();
    let paths: Vec<&str> = paths.iter().map(|path| path.as_str()).collect();
    let files = transfer(&paths, FileTransferOperation::Copy, 0);
    let list = String::from_utf8(files.uri_list(here())).unwrap();
    assert!(list.ends_with("\r\n"));
    let lines: Vec<&str> = list.lines().collect();
    assert_eq!(lines.len(), names.len());
    for line in lines {
        assert!(line.starts_with("file:///"));
        assert!(line.bytes().all(|byte| byte.is_ascii_graphic()));
    }
    assert_eq!(decode(list.as_bytes(), URI_LIST_MIME), Some(files));
}

#[test]
fn pathnames_on_a_drive_travel_where_there_are_drives() {
    for path in ["C:\\", "c:/", "C:/a b/./50%.txt", "Z:\\\u{00e9}\\D:\\x/"] {
        let files = transfer(&[path], FileTransferOperation::Move, 9);
        for mime in [URI_LIST_MIME, COPIED_FILES_MIME, FILE_TRANSFER_MIME] {
            let back = decode(&files.encode(mime, here()).unwrap(), mime);
            if windows() {
                assert_eq!(back.unwrap().paths, files.paths);
            } else {
                assert!(back.is_none());
            }
        }
    }
}
