use emb_trial::{test_runner, QemuExitCode, Testable};
use std::cell::RefCell;

struct Recorder<'a> {
    id: usize,
    log: &'a RefCell<Vec<usize>>,
}

impl<'a> Testable for Recorder<'a> {
    fn run(&self) {
        self.log.borrow_mut().push(self.id);
    }
}

#[test]
fn trivial_assertion() {
    assert_eq!(1, 1);
}

#[test]
fn qemu_exit_codes() {
    assert_eq!(QemuExitCode::Success.as_u32(), 0x10);
    assert_eq!(QemuExitCode::Failed.as_u32(), 0x11);
}

#[test]
fn runner_runs_each_test_in_order_then_succeeds() {
    let log = RefCell::new(Vec::new());
    let a = Recorder { id: 0, log: &log };
    let b = Recorder { id: 1, log: &log };
    let c = Recorder { id: 2, log: &log };
    let tests: [&dyn Testable; 3] = [&a, &b, &c];
    assert_eq!(test_runner(&tests), QemuExitCode::Success);
    assert_eq!(*log.borrow(), vec![0, 1, 2]);
}

#[test]
fn runner_with_no_tests_succeeds() {
    let tests: [&dyn Testable; 0] = [];
    assert_eq!(test_runner(&tests), QemuExitCode::Success);
}
