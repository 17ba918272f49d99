use native_shell::file_transfer::{ExternalPaths, FileTransfer, FileTransferOperation};
use native_shell::outbound_drag::{
    drag_completion, resolve_proxy, Atoms, DragAction, DragError, DragOutcome, DragSession,
    MessageData, SelectionRequest, TargetSearch, WindowReply, CHUNK, ESCAPE, MAX_DEPTH, NONE,
    RELEASE_NANOS, SESSION_NANOS,
};
use native_shell::paths::PathSystem;
use std::path::PathBuf;

fn here() -> PathSystem {
    PathSystem::of_this_machine()
}

const ATOMS: Atoms = Atoms {
    xdnd_aware: 101,
    xdnd_proxy: 102,
    xdnd_enter: 103,
    xdnd_leave: 104,
    xdnd_position: 105,
    xdnd_status: 106,
    xdnd_drop: 107,
    xdnd_finished: 108,
    xdnd_selection: 109,
    xdnd_action_copy: 110,
    xdnd_action_move: 111,
    targets: 112,
    incr: 113,
    uri: 114,
};

const SOURCE: u32 = 9;
const TARGET: u32 = 20;

fn files(paths: &[&str], operation: FileTransferOperation) -> FileTransfer {
    FileTransfer {
        paths: ExternalPaths::new(paths.iter().map(PathBuf::from).collect()),
        operation,
        ownership: 1,
    }
}

fn begin(operation: FileTransferOperation) -> DragSession {
    match DragSession::begin(&files(&["/tmp/a"], operation), here(), true, SOURCE, ATOMS) {
        Ok(session) => session,
        Err(_) => panic!("the drag begins"),
    }
}

fn data(d0: u32, d1: u32, d2: u32, d3: u32, d4: u32) -> MessageData {
    MessageData { d0, d1, d2, d3, d4 }
}

fn send(target: u32, kind: u32, data: MessageData) -> DragAction {
    DragAction::Send { target, kind, data }
}

/// A session over a target that would take a move.
fn accepted() -> DragSession {
    let mut session = begin(FileTransferOperation::Move);
    session.pointer_held(TARGET, false, 5, 6);
    session.client_message(ATOMS.xdnd_status, data(TARGET, 1, 0, 0, ATOMS.xdnd_action_move));
    session
}

/// A session whose files were dropped.
fn dropped() -> DragSession {
    let mut session = accepted();
    session.pointer_released(0);
    session
}

#[test]
fn a_drag_needs_the_pointer_and_local_files() {
    let local = files(&["/tmp/a"], FileTransferOperation::Copy);
    let remote = files(&["relative"], FileTransferOperation::Copy);
    assert_eq!(
        DragSession::begin(&local, here(), false, SOURCE, ATOMS).err(),
        Some(DragError::GrabRejected)
    );
    assert_eq!(
        DragSession::begin(&remote, here(), true, SOURCE, ATOMS).err(),
        Some(DragError::NoLocalFiles)
    );
    let session = begin(FileTransferOperation::Copy);
    assert_eq!(session.payload, b"file:///tmp/a\r\n");
    assert!(session.follows_pointer());
}

fn search(replies: &[(bool, u32)]) -> (u32, usize) {
    let mut search = TargetSearch::new(1, SOURCE);
    let mut looked = 0;
    for &(aware, child) in replies {
        looked += 1;
        if !search.visit(WindowReply { aware, child }) {
            break;
        }
    }
    (search.target, looked)
}

#[test]
fn the_deepest_aware_window_is_the_target() {
    assert_eq!(search(&[(false, 2), (true, 3), (false, 4), (false, NONE)]), (2, 4));
    assert_eq!(search(&[(true, 2), (true, 3), (true, NONE)]), (3, 3));
    assert_eq!(search(&[(false, NONE)]), (NONE, 1));
    assert_eq!(search(&[(true, SOURCE), (true, NONE)]), (1, 1));
    let deep = [(false, 2); 80];
    assert_eq!(search(&deep), (NONE, MAX_DEPTH as usize));
    let mut own = TargetSearch::new(SOURCE, SOURCE);
    assert!(!own.visit(WindowReply { aware: true, child: NONE }));
    assert_eq!(own.target, NONE);
}

#[test]
fn a_proxy_has_to_name_itself() {
    assert_eq!(resolve_proxy(TARGET, Some(30), Some(30)), 30);
    assert_eq!(resolve_proxy(TARGET, Some(30), Some(31)), TARGET);
    assert_eq!(resolve_proxy(TARGET, Some(30), None), TARGET);
    assert_eq!(resolve_proxy(TARGET, None, None), TARGET);
    assert_eq!(resolve_proxy(NONE, Some(30), Some(30)), NONE);
}

#[test]
fn targets_are_entered_and_left() {
    let mut session = begin(FileTransferOperation::Move);
    session.pointer_event(77);
    assert_eq!(
        session.pointer_held(TARGET, false, 1, -1),
        [
            send(TARGET, ATOMS.xdnd_enter, data(SOURCE, 5 << 24, ATOMS.uri, 0, 0)),
            send(
                TARGET,
                ATOMS.xdnd_position,
                data(SOURCE, 0, 0x1_ffff, 77, ATOMS.xdnd_action_move)
            ),
        ]
    );
    assert_eq!(session.pointer_held(TARGET, false, 1, -1), []);
    // The control key turns a move into a copy.
    assert_eq!(
        session.pointer_held(TARGET, true, -2, 3),
        [send(
            TARGET,
            ATOMS.xdnd_position,
            data(SOURCE, 0, 0xfffe_0003, 77, ATOMS.xdnd_action_copy)
        )]
    );
    let moved = session.pointer_held(21, true, -2, 3);
    assert_eq!(moved.len(), 3);
    assert_eq!(
        moved[0],
        send(TARGET, ATOMS.xdnd_leave, data(SOURCE, 0, 0, 0, 0))
    );
    assert_eq!(
        session.pointer_held(NONE, true, 0, 0),
        [send(21, ATOMS.xdnd_leave, data(SOURCE, 0, 0, 0, 0))]
    );
    assert_eq!(session.pointer_held(NONE, true, 0, 0), []);
}

#[test]
fn a_copy_never_asks_for_a_move() {
    let mut session = begin(FileTransferOperation::Copy);
    session.pointer_held(TARGET, false, 0, 0);
    assert_eq!(session.state.requested_action, ATOMS.xdnd_action_copy);
    // The target may not answer with a move.
    let answer = data(TARGET, 1, 0, 0, ATOMS.xdnd_action_move);
    session.client_message(ATOMS.xdnd_status, answer);
    assert!(!session.state.accepted);
    let answer = data(TARGET, 1, 0, 0, ATOMS.xdnd_action_copy);
    session.client_message(ATOMS.xdnd_status, answer);
    assert!(session.state.accepted);
}

#[test]
fn only_the_target_answers() {
    let mut session = accepted();
    assert!(session.state.accepted);
    let refusal = data(TARGET, 0, 0, 0, ATOMS.xdnd_action_move);
    session.client_message(ATOMS.xdnd_status, data(21, 0, 0, 0, 0));
    assert!(session.state.accepted);
    session.client_message(ATOMS.xdnd_status, refusal);
    assert!(!session.state.accepted);
    let mut session = dropped();
    session.client_message(ATOMS.xdnd_status, refusal);
    assert!(session.state.accepted);
}

#[test]
fn a_release_drops_on_a_target_that_accepts() {
    let mut session = accepted();
    session.pointer_event(5);
    let (actions, outcome) = session.pointer_released(10);
    assert_eq!(
        actions,
        [
            send(TARGET, ATOMS.xdnd_drop, data(SOURCE, 0, 5, 0, 0)),
            DragAction::Ungrab
        ]
    );
    assert_eq!(outcome, DragOutcome::Continue);
    assert!(!session.follows_pointer());
}

#[test]
fn a_release_waits_for_an_answer() {
    let ended = DragOutcome::Ended(None);
    assert_eq!(begin(FileTransferOperation::Copy).pointer_released(0).1, ended);

    let mut session = begin(FileTransferOperation::Copy);
    session.pointer_held(TARGET, false, 0, 0);
    assert_eq!(session.pointer_released(1000).1, DragOutcome::Continue);
    assert_eq!(
        session.pointer_released(1000 + RELEASE_NANOS).1,
        DragOutcome::Continue
    );
    assert_eq!(session.pointer_released(1001 + RELEASE_NANOS).1, ended);
}

#[test]
fn the_receiver_decides_how_a_drop_ends() {
    let end = |d1: u32, action: u32| {
        dropped().client_message(ATOMS.xdnd_finished, data(TARGET, d1, action, 0, 0))
    };
    assert_eq!(
        end(1, ATOMS.xdnd_action_move),
        DragOutcome::Ended(Some(FileTransferOperation::Move))
    );
    assert_eq!(
        end(3, ATOMS.xdnd_action_copy),
        DragOutcome::Ended(Some(FileTransferOperation::Copy))
    );
    assert_eq!(end(0, ATOMS.xdnd_action_move), DragOutcome::Ended(None));
    assert_eq!(end(1, 0), DragOutcome::Ended(None));
    let finished = data(TARGET, 1, ATOMS.xdnd_action_move, 0, 0);
    // Nothing was dropped yet, or another window says so.
    assert_eq!(
        accepted().client_message(ATOMS.xdnd_finished, finished),
        DragOutcome::Continue
    );
    assert_eq!(
        dropped().client_message(ATOMS.xdnd_finished, data(21, 1, ATOMS.xdnd_action_move, 0, 0)),
        DragOutcome::Continue
    );

    let mut copy = begin(FileTransferOperation::Copy);
    copy.pointer_held(TARGET, false, 0, 0);
    copy.client_message(ATOMS.xdnd_status, data(TARGET, 1, 0, 0, ATOMS.xdnd_action_copy));
    copy.pointer_released(0);
    assert_eq!(
        copy.client_message(ATOMS.xdnd_finished, finished),
        DragOutcome::Ended(None)
    );
}

#[test]
fn escape_ends_a_drag() {
    let session = accepted();
    assert_eq!(session.key_pressed(&vec![1, 2]), (vec![], DragOutcome::Continue));
    assert_eq!(
        session.key_pressed(&vec![0, ESCAPE]),
        (
            vec![DragAction::TrySend {
                target: TARGET,
                kind: ATOMS.xdnd_leave,
                data: data(SOURCE, 0, 0, 0, 0)
            }],
            DragOutcome::Ended(None)
        )
    );
    assert_eq!(
        begin(FileTransferOperation::Copy).key_pressed(&vec![ESCAPE]),
        (vec![], DragOutcome::Ended(None))
    );
    assert_eq!(session.selection_cleared(), DragOutcome::Ended(None));
    assert!(!DragSession::expired(SESSION_NANOS));
    assert!(DragSession::expired(SESSION_NANOS + 1));
}

fn request(target: u32, property: u32) -> SelectionRequest {
    SelectionRequest {
        requestor: 40,
        selection: ATOMS.xdnd_selection,
        target,
        property,
        time: 8,
    }
}

fn notify(target: u32, property: u32) -> DragAction {
    DragAction::Notify {
        requestor: 40,
        selection: ATOMS.xdnd_selection,
        target,
        property,
        time: 8,
    }
}

#[test]
fn the_selection_is_handed_over() {
    let mut session = begin(FileTransferOperation::Copy);
    let len = session.payload.len();
    assert_eq!(
        session.selection_request(request(ATOMS.targets, 50)),
        [
            DragAction::SetAtoms {
                window: 40,
                property: 50,
                first: ATOMS.targets,
                second: ATOMS.uri
            },
            notify(ATOMS.targets, 50)
        ]
    );
    // A requestor that names no property means the target.
    assert_eq!(
        session.selection_request(request(ATOMS.uri, NONE)),
        [
            DragAction::SetBytes {
                window: 40,
                property: ATOMS.uri,
                kind: ATOMS.uri,
                from: 0,
                to: len
            },
            notify(ATOMS.uri, ATOMS.uri)
        ]
    );
    assert_eq!(session.selection_request(request(1, 50)), [notify(1, NONE)]);
    let other = SelectionRequest {
        selection: 2,
        ..request(ATOMS.uri, 50)
    };
    assert_eq!(session.selection_request(other), []);
    assert!(session.increments.is_empty());
}

#[test]
fn a_long_list_is_handed_over_in_parts() {
    let name = format!("/tmp/{}", "x".repeat(CHUNK));
    let long = files(&[&name, &name], FileTransferOperation::Copy);
    let mut session = match DragSession::begin(&long, here(), true, SOURCE, ATOMS) {
        Ok(session) => session,
        Err(_) => panic!("the drag begins"),
    };
    let payload = session.payload.clone();
    assert!(payload.len() > 2 * CHUNK);
    assert_eq!(
        session.selection_request(request(ATOMS.uri, 50)),
        [
            DragAction::WatchProperties { window: 40 },
            DragAction::SetNumber {
                window: 40,
                property: 50,
                kind: ATOMS.incr,
                number: payload.len() as u32
            },
            notify(ATOMS.uri, 50)
        ]
    );
    assert_eq!(session.property_deleted(40, 51), []);
    assert_eq!(session.property_deleted(41, 50), []);
    let mut read = Vec::new();
    let mut parts = Vec::new();
    while let Some(&DragAction::SetBytes { from, to, .. }) = session.property_deleted(40, 50).first()
    {
        parts.push(to - from);
        read.extend_from_slice(&payload[from..to]);
    }
    assert_eq!(read, payload);
    assert_eq!(parts, [CHUNK, CHUNK, payload.len() - 2 * CHUNK, 0]);
    assert!(session.increments.is_empty());
}

#[test]
fn an_error_counts_as_a_cancelled_drag() {
    let files = files(&["/tmp/a"], FileTransferOperation::Move);
    let done = drag_completion::<()>(files.clone(), Ok(Some(FileTransferOperation::Copy)));
    assert_eq!(done.operation, Some(FileTransferOperation::Copy));
    assert!(!done.source_removed);
    assert_eq!(done.files, files);
    assert_eq!(drag_completion::<()>(files.clone(), Ok(None)).operation, None);
    assert_eq!(drag_completion(files, Err("connection lost")).operation, None);
}
