use native_shell::file_transfer::FileTransferOperation;
use native_shell::paste::{FileDropTransfer, FilePaste, PasteReport};
use std::cell::RefCell;
use std::rc::Rc;

/// One holder of a lease, which hands on the reports that the lease gives.
struct Receipt {
    lease: Rc<RefCell<FilePaste>>,
    observed: Rc<RefCell<Vec<PasteReport>>>,
    held: bool,
}

impl Receipt {
    fn new(observed: Rc<RefCell<Vec<PasteReport>>>) -> Self {
        Receipt {
            lease: Rc::new(RefCell::new(FilePaste::new())),
            observed,
            held: true,
        }
    }

    fn share(&self) -> Self {
        self.lease.borrow_mut().share();
        Receipt {
            lease: self.lease.clone(),
            observed: self.observed.clone(),
            held: true,
        }
    }

    fn complete(mut self, operation: Option<FileTransferOperation>) {
        self.held = false;
        let report = self.lease.borrow_mut().complete(operation);
        self.observed.borrow_mut().extend(report);
    }
}

impl Drop for Receipt {
    fn drop(&mut self) {
        if self.held {
            let report = self.lease.borrow_mut().release();
            self.observed.borrow_mut().extend(report);
        }
    }
}

#[test]
fn paste_receipt_reports_completion_once_and_drop_reports_cancellation() {
    let events = Rc::new(RefCell::new(Vec::new()));
    let receipt = Receipt::new(events.clone());
    let retained = receipt.share();
    drop(receipt);
    assert!(events.borrow().is_empty());
    retained.complete(Some(FileTransferOperation::Move));
    drop(Receipt::new(events.clone()));
    assert_eq!(*events.borrow(), [Some(FileTransferOperation::Move), None]);
}

#[test]
fn a_second_completion_is_not_reported() {
    let mut lease = FilePaste::new();
    lease.share();
    lease.share();
    assert_eq!(
        lease.complete(Some(FileTransferOperation::Copy)),
        Some(Some(FileTransferOperation::Copy))
    );
    assert_eq!(lease.complete(None), None);
    assert_eq!(lease.release(), None);
    assert_eq!(
        lease,
        FilePaste {
            pending: false,
            holders: 0
        }
    );
}

#[test]
fn a_partial_paste_is_reported_as_cancelled() {
    let mut drop = FileDropTransfer {
        operation: FileTransferOperation::Move,
        source_owns_move: false,
        completion: FilePaste::new(),
    };
    assert_eq!(drop.completion.complete(None), Some(None));
}
