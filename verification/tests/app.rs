use native_shell::app::{App, ClipboardEntry, ClipboardItem, FileTransferCompletion};
use native_shell::file_transfer::{ExternalPaths, FileTransfer, FileTransferOperation};
use std::path::PathBuf;

fn files(ownership: u64) -> FileTransfer {
    FileTransfer {
        paths: ExternalPaths::new(vec![PathBuf::from("/tmp/a")]),
        operation: FileTransferOperation::Move,
        ownership,
    }
}

#[test]
fn transfers_are_pending_until_their_completions_are_taken() {
    let mut app = App::new();
    assert!(!app.has_pending_native_file_transfers());
    files(7).set_active(&mut app, true);
    files(8).set_active(&mut app, true);
    assert!(app.file_transfer_is_active(7));
    assert!(!app.file_transfer_is_active(9));
    assert!(app.has_pending_native_file_transfers());

    FileTransferCompletion {
        files: files(7),
        operation: Some(FileTransferOperation::Copy),
        source_removed: true,
    }
    .report(&mut app);
    assert!(!app.file_transfer_is_active(7));
    assert!(app.file_transfer_is_active(8));
    files(8).set_active(&mut app, false);
    assert!(app.has_pending_native_file_transfers());

    let taken = app.take_file_transfer_completions();
    assert_eq!(taken.len(), 1);
    assert_eq!(taken[0].files, files(7));
    assert_eq!(taken[0].operation, Some(FileTransferOperation::Copy));
    assert!(taken[0].source_removed);
    assert!(!app.has_pending_native_file_transfers());
    assert!(app.take_file_transfer_completions().is_empty());
}

#[test]
fn completions_are_taken_in_order() {
    let mut app = App::new();
    for ownership in [3, 1, 2] {
        FileTransferCompletion {
            files: files(ownership),
            operation: None,
            source_removed: false,
        }
        .clone()
        .report(&mut app);
    }
    let owners: Vec<u64> = app
        .take_file_transfer_completions()
        .iter()
        .map(|completion| completion.files.ownership)
        .collect();
    assert_eq!(owners, [3, 1, 2]);
}

#[test]
fn the_first_entry_typed_as_files_decides() {
    let text = || ClipboardEntry::Text("/tmp/file".to_string());
    let outside = ExternalPaths::new(vec![PathBuf::from("/tmp/outside")]);
    let item = ClipboardItem {
        entries: vec![
            text(),
            ClipboardEntry::ExternalPaths(outside.clone()),
            ClipboardEntry::Files(files(5)),
        ],
    };
    assert_eq!(
        item.file_transfer(),
        Some(FileTransfer {
            paths: outside,
            operation: FileTransferOperation::Copy,
            ownership: 0,
        })
    );
    let typed = ClipboardItem {
        entries: vec![text(), ClipboardEntry::Files(files(5))],
    };
    assert_eq!(typed.file_transfer(), Some(files(5)));
    let texts = ClipboardItem {
        entries: vec![text(), ClipboardEntry::Other, text()],
    };
    assert_eq!(texts.file_transfer(), None);
    assert_eq!(ClipboardItem { entries: vec![] }.file_transfer(), None);
}
