use native_shell::app::{App, ClipboardEntry, ClipboardItem};
use native_shell::file_transfer::{
    ExternalPaths, FileTransfer, FileTransferOperation, FILE_TRANSFER_MIME,
};
use native_shell::paste::FilePaste;
use native_shell::paths::PathSystem;
use native_shell::shell_transfer::{
    accept_drop, allowed_effects, clipboard_still_offers, drop_effects, effect_bytes, effect_in,
    effect_of, failed_drag, forward, names_recycle_bin, offered_formats, paste_effects,
    transfer_operation, transfers_equal, wide_path, FileDataObject, TransferFormats, EFFECT_COPY,
    EFFECT_MOVE, E_ABORT, S_OK,
};
use std::path::PathBuf;

const MOVE: Option<FileTransferOperation> = Some(FileTransferOperation::Move);
const COPY: Option<FileTransferOperation> = Some(FileTransferOperation::Copy);

const FORMATS: TransferFormats = TransferFormats {
    preferred: 1,
    performed: 2,
    logical: 3,
    pasted: 4,
    private: 5,
    target_clsid: 6,
};

fn here() -> PathSystem {
    PathSystem::of_this_machine()
}

fn files() -> FileTransfer {
    FileTransfer {
        paths: ExternalPaths::new(vec![PathBuf::from("/tmp/a")]),
        operation: FileTransferOperation::Move,
        ownership: 11,
    }
}

fn object(clipboard: bool) -> FileDataObject {
    FileDataObject::new(files(), clipboard)
}

type Report = (Option<FileTransferOperation>, bool);

fn reports(app: &mut App) -> Vec<Report> {
    app.take_file_transfer_completions()
        .iter()
        .map(|completion| {
            assert_eq!(completion.files, files());
            (completion.operation, completion.source_removed)
        })
        .collect()
}

/// What a clipboard source reports after a receiver set some effects.
fn pasted(settings: &[(u16, u32)]) -> Vec<Report> {
    let mut app = App::new();
    let mut object = object(true);
    for &(format, effect) in settings {
        object.set_data(&mut app, &FORMATS, format, Some(effect), false);
    }
    reports(&mut app)
}

#[test]
fn results_are_forwarded_unchanged() {
    assert_eq!(forward(S_OK), Ok(()));
    assert_eq!(forward(1), Err(1));
    assert_eq!(forward(E_ABORT), Err(E_ABORT));
    assert_eq!(E_ABORT as u32, 0x8000_4004);
}

#[test]
fn effects_stand_for_operations() {
    assert_eq!(transfer_operation(EFFECT_MOVE), MOVE);
    assert_eq!(transfer_operation(EFFECT_COPY), COPY);
    assert_eq!(transfer_operation(EFFECT_COPY | EFFECT_MOVE), None);
    assert_eq!(transfer_operation(0), None);
    assert_eq!(effect_of(FileTransferOperation::Move), 2);
    assert_eq!(effect_of(FileTransferOperation::Copy), 1);
    assert_eq!(allowed_effects(FileTransferOperation::Move), 3);
    assert_eq!(allowed_effects(FileTransferOperation::Copy), 1);
}

#[test]
fn effects_are_little_endian() {
    for effect in [0, 1, 2, 0x1234_5678, u32::MAX] {
        assert_eq!(effect_bytes(effect), effect.to_le_bytes());
        assert_eq!(effect_in(&effect.to_le_bytes()), Some(effect));
    }
    assert_eq!(effect_in(&[2, 0, 0]), None);
    assert_eq!(effect_in(&[2, 0, 0, 0, 9]), Some(2));
}

#[test]
fn the_recycle_bin_is_named_by_its_class() {
    let class = [7u8; 16];
    let mut longer = class.to_vec();
    longer.push(1);
    assert!(names_recycle_bin(&FORMATS, 6, &class, &class));
    assert!(names_recycle_bin(&FORMATS, 6, &longer, &class));
    assert!(!names_recycle_bin(&FORMATS, 2, &class, &class));
    assert!(!names_recycle_bin(&FORMATS, 6, &class[..15], &class));
    assert!(!names_recycle_bin(&FORMATS, 6, &[8; 16], &class));
}

#[test]
fn a_paste_is_reported_when_it_succeeded() {
    assert_eq!(pasted(&[(2, EFFECT_MOVE)]), []);
    assert_eq!(pasted(&[(4, EFFECT_COPY)]), [(COPY, true)]);
    // Both effects have to be a move before the source deletes its originals.
    assert_eq!(pasted(&[(4, EFFECT_MOVE)]), [(MOVE, true)]);
    assert_eq!(pasted(&[(2, EFFECT_MOVE), (4, EFFECT_MOVE)]), [(MOVE, false)]);
    assert_eq!(pasted(&[(2, EFFECT_COPY), (4, EFFECT_MOVE)]), [(MOVE, true)]);
    assert_eq!(pasted(&[(4, 0)]), [(None, true)]);
    assert_eq!(
        pasted(&[(4, EFFECT_COPY), (4, EFFECT_MOVE)]),
        [(COPY, true)]
    );
}

#[test]
fn the_recycle_bin_counts_as_a_move() {
    let mut app = App::new();
    let mut object = object(true);
    object.set_data(&mut app, &FORMATS, 6, None, true);
    assert!(!object.result.recycle_bin);
    object.set_data(&mut app, &FORMATS, 6, Some(77), true);
    assert!(object.result.recycle_bin);
    object.set_data(&mut app, &FORMATS, 4, Some(EFFECT_COPY), false);
    assert_eq!(reports(&mut app), [(MOVE, false)]);
}

#[test]
fn a_drag_does_not_report_a_paste() {
    let mut app = App::new();
    let mut object = object(false);
    object.set_data(&mut app, &FORMATS, 4, Some(EFFECT_MOVE), false);
    assert_eq!(reports(&mut app), []);
    object.release(&mut app);
    assert_eq!(reports(&mut app), [(None, false)]);
}

#[test]
fn an_asynchronous_operation_reports_its_end() {
    let mut app = App::new();
    let mut object = object(true);
    assert!(object.get_async_mode());
    object.set_async_mode(false);
    assert!(!object.get_async_mode());
    object.start_operation(&mut app);
    assert!(object.in_operation());
    assert!(app.file_transfer_is_active(11));
    object.set_data(&mut app, &FORMATS, 4, Some(EFFECT_MOVE), false);
    assert_eq!(reports(&mut app), []);
    object.end_operation(&mut app, S_OK, EFFECT_MOVE);
    assert!(!object.in_operation());
    assert!(!app.file_transfer_is_active(11));
    assert_eq!(reports(&mut app), [(MOVE, false)]);
    object.end_operation(&mut app, S_OK, EFFECT_COPY);
    object.release(&mut app);
    assert_eq!(reports(&mut app), []);
}

#[test]
fn the_first_known_effect_decides_a_drag() {
    let end = |logical: Option<u32>, drag: Option<u32>, code: i32, effects: u32| {
        let mut app = App::new();
        let mut object = object(false);
        object.start_operation(&mut app);
        if let Some(effect) = drag {
            assert!(object.drag_ended(effect).is_none());
        }
        if let Some(effect) = logical {
            object.set_data(&mut app, &FORMATS, 3, Some(effect), false);
        }
        object.end_operation(&mut app, code, effects);
        reports(&mut app)
    };
    assert_eq!(end(None, None, S_OK, EFFECT_COPY), [(COPY, true)]);
    assert_eq!(end(None, Some(EFFECT_MOVE), S_OK, EFFECT_COPY), [(MOVE, true)]);
    assert_eq!(
        end(Some(EFFECT_COPY), Some(EFFECT_MOVE), S_OK, EFFECT_MOVE),
        [(COPY, false)]
    );
    assert_eq!(end(None, None, E_ABORT, EFFECT_COPY), [(None, true)]);
    assert_eq!(end(None, None, 1, EFFECT_COPY), [(COPY, true)]);
}

#[test]
fn a_drag_ends_with_an_effect() {
    let ended = |performed: Option<u32>, logical: Option<u32>, effect: u32| {
        let mut app = App::new();
        let mut object = object(false);
        for (format, value) in [(2, performed), (3, logical)] {
            object.set_data(&mut app, &FORMATS, format, value, false);
        }
        let completion = object.drag_ended(effect).unwrap();
        assert_eq!(object.result.drag_effect, Some(effect));
        (completion.operation, completion.source_removed)
    };
    assert_eq!(ended(None, None, EFFECT_COPY), (COPY, true));
    assert_eq!(ended(None, None, EFFECT_MOVE), (MOVE, false));
    assert_eq!(ended(Some(0), None, EFFECT_MOVE), (MOVE, true));
    assert_eq!(ended(None, Some(EFFECT_MOVE), 0), (MOVE, true));
    assert_eq!(ended(None, None, 0), (None, true));
    let failed = failed_drag(&files());
    assert_eq!((failed.operation, failed.source_removed), (None, false));
    assert_eq!(failed.files, files());
}

#[test]
fn pathnames_end_in_a_zero() {
    assert_eq!(wide_path(vec![65, 66]), Some(vec![65, 66, 0]));
    assert_eq!(wide_path(vec![]), Some(vec![0]));
    assert_eq!(wide_path(vec![65, 0, 66]), None);
}

#[test]
fn objects_offer_the_preferred_effect_and_the_files() {
    let offers = offered_formats(&files(), &FORMATS, here());
    assert_eq!(
        offers,
        vec![
            (1, vec![2, 0, 0, 0]),
            (5, files().encode(FILE_TRANSFER_MIME, here()).unwrap())
        ]
    );
}

#[test]
fn the_clipboard_may_change_before_a_paste() {
    let item = |ownership: u64| ClipboardItem {
        entries: vec![ClipboardEntry::Files(FileTransfer {
            ownership,
            ..files()
        })],
    };
    assert!(clipboard_still_offers(&files(), &item(11), 4, 4, here()));
    assert!(!clipboard_still_offers(&files(), &item(11), 4, 5, here()));
    assert!(!clipboard_still_offers(&files(), &item(12), 4, 4, here()));
    let text = ClipboardItem::new_string("/tmp/a".to_string());
    assert!(!clipboard_still_offers(&files(), &text, 4, 4, here()));
    let same_names = FileTransfer {
        paths: ExternalPaths::new(vec![PathBuf::from("/tmp//./a/")]),
        ..files()
    };
    assert!(transfers_equal(&files(), &same_names, here()));
    let two = FileTransfer {
        paths: ExternalPaths::new(vec![PathBuf::from("/tmp/a"), PathBuf::from("/tmp/a")]),
        ..files()
    };
    assert!(!transfers_equal(&files(), &two, here()));
}

#[test]
fn receivers_move_the_originals_themselves() {
    assert_eq!(paste_effects(MOVE, &FORMATS), [(2, 0), (3, 2), (4, 2)]);
    assert_eq!(paste_effects(COPY, &FORMATS), [(2, 1), (3, 1), (4, 1)]);
    assert!(paste_effects(None, &FORMATS).is_empty());
    // The source reports what was pasted and leaves the originals alone.
    for operation in [MOVE, COPY] {
        assert_eq!(
            pasted(&paste_effects(operation, &FORMATS)),
            [(operation, true)]
        );
    }

    let moved = drop_effects(MOVE, &FORMATS);
    assert_eq!(moved.settings, [(2, 0), (3, 2)]);
    assert_eq!((moved.code, moved.effects), (S_OK, 0));
    let copied = drop_effects(COPY, &FORMATS);
    assert_eq!(copied.settings, [(2, 1), (3, 1)]);
    assert_eq!((copied.code, copied.effects), (S_OK, 1));
    let cancelled = drop_effects(None, &FORMATS);
    assert_eq!(cancelled.settings, [(2, 0), (3, 0)]);
    assert_eq!((cancelled.code, cancelled.effects), (E_ABORT, 0));
}

#[test]
fn a_drop_holds_a_lease() {
    let drop = accept_drop(FileTransferOperation::Move);
    assert_eq!(drop.operation, FileTransferOperation::Move);
    assert!(!drop.source_owns_move);
    assert_eq!(drop.completion, FilePaste::new());
}

#[test]
fn a_drag_that_is_handed_on_is_cancelled_by_the_object() {
    let mut app = App::new();
    let mut dragged = object(false);
    assert!(dragged.drag_ended(EFFECT_COPY).is_some());
    assert_eq!(reports(&mut app), []);
    dragged.release(&mut app);
    assert_eq!(reports(&mut app), [(None, false)]);
}
