use native_shell::app::{ClipboardEntry, ClipboardItem};
use native_shell::file_transfer::{ExternalPaths, FileTransfer, FileTransferOperation};
use native_shell::x11_clipboard::{
    file_clipboard_bridge, read_files_from_x11_clipboard, write_files_to_x11_clipboard,
    FileClipboardBridge,
};
use std::path::PathBuf;

fn files() -> FileTransfer {
    FileTransfer {
        paths: ExternalPaths::new(vec![PathBuf::from("/tmp/a")]),
        operation: FileTransferOperation::Move,
        ownership: 3,
    }
}

#[test]
fn nothing_is_opened_where_x11_is_disabled() {
    let mut bridge = FileClipboardBridge::<u8>::new();
    assert_eq!(
        write_files_to_x11_clipboard(
            false,
            &mut bridge,
            || panic!("opened"),
            |_, _| Ok(()),
            &files()
        ),
        Err("X11 support is disabled".to_string())
    );
    assert_eq!(
        read_files_from_x11_clipboard(
            false,
            &mut bridge,
            || panic!("opened"),
            |_| Err(String::new())
        ),
        None
    );
    assert!(bridge.outcome.is_none());
}

#[test]
fn the_clipboard_is_opened_once() {
    let mut bridge = FileClipboardBridge::<u8>::new();
    assert_eq!(file_clipboard_bridge(&mut bridge, || Ok(5)), None);
    assert_eq!(
        write_files_to_x11_clipboard(
            true,
            &mut bridge,
            || panic!("opened again"),
            |connection, offered| {
                assert_eq!(*connection, 5);
                assert_eq!(offered.ownership, 3);
                Ok(())
            },
            &files()
        ),
        Ok(())
    );
    assert_eq!(
        write_files_to_x11_clipboard(
            true,
            &mut bridge,
            || panic!("opened again"),
            |_, _| Err("refused".to_string()),
            &files()
        ),
        Err("refused".to_string())
    );
}

#[test]
fn a_failure_to_open_is_kept() {
    let mut bridge = FileClipboardBridge::<u8>::new();
    let failed = write_files_to_x11_clipboard(
        true,
        &mut bridge,
        || Err("no display".to_string()),
        |_, _| panic!("written"),
        &files(),
    );
    assert_eq!(failed, Err("no display".to_string()));
    assert_eq!(
        file_clipboard_bridge(&mut bridge, || panic!("opened again")),
        Some("no display".to_string())
    );
    assert_eq!(
        read_files_from_x11_clipboard(
            true,
            &mut bridge,
            || panic!("opened again"),
            |_| panic!("read")
        ),
        None
    );
}

#[test]
fn only_typed_files_are_read() {
    let mut bridge = FileClipboardBridge::<u8>::new();
    let typed = read_files_from_x11_clipboard(
        true,
        &mut bridge,
        || Ok(1),
        |_| {
            Ok(ClipboardItem {
                entries: vec![ClipboardEntry::Files(files())],
            })
        },
    );
    assert_eq!(typed, Some(files()));
    let text = read_files_from_x11_clipboard(
        true,
        &mut bridge,
        || Ok(2),
        |_| Ok(ClipboardItem::new_string("/tmp/a".to_string())),
    );
    assert_eq!(text, None);
    let failed =
        read_files_from_x11_clipboard(true, &mut bridge, || Ok(2), |_| Err("empty".to_string()));
    assert_eq!(failed, None);
}
