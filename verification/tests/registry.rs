use std::sync::atomic::{AtomicBool, Ordering};
use std::sync::mpsc::channel;
use std::sync::Arc;

use fm_core::ops::UserInput;
use fm_core::registry::OpRegistry;
use fm_core::types::{ErrorResolution, Resolution};

#[test]
fn operations_get_numbered_ids_and_receive_their_answers() {
    let mut reg = OpRegistry::new();
    let (tx0, rx0) = channel();
    let (tx1, _rx1) = channel();
    let first = reg.register(tx0, Arc::new(AtomicBool::new(false)));
    let second = reg.register(tx1, Arc::new(AtomicBool::new(false)));
    assert_eq!(first, "op-0");
    assert_eq!(second, "op-1");
    assert_eq!(reg.send("op-0", UserInput::Collision(Resolution::Skip)), Ok(()));
    match rx0.try_recv() {
        Ok(UserInput::Collision(r)) => assert_eq!(r, Resolution::Skip),
        _ => panic!("the answer did not arrive"),
    }
}

#[test]
fn unknown_and_finished_operations_refuse_answers() {
    let mut reg = OpRegistry::new();
    assert_eq!(
        reg.send("op-7", UserInput::Error(ErrorResolution::Skip)),
        Err("unknown operation id".to_string())
    );
    let (tx, rx) = channel();
    let id = reg.register(tx, Arc::new(AtomicBool::new(false)));
    drop(rx);
    assert_eq!(
        reg.send(&id, UserInput::Error(ErrorResolution::Skip)),
        Err("operation is no longer running".to_string())
    );
    reg.remove(&id);
    assert_eq!(
        reg.send(&id, UserInput::Error(ErrorResolution::Skip)),
        Err("unknown operation id".to_string())
    );
}

#[test]
fn cancelling_raises_the_operations_flag_only() {
    let mut reg = OpRegistry::new();
    let flag_a = Arc::new(AtomicBool::new(false));
    let flag_b = Arc::new(AtomicBool::new(false));
    let (ta, _ra) = channel();
    let (tb, _rb) = channel();
    let a = reg.register(ta, flag_a.clone());
    let _b = reg.register(tb, flag_b.clone());
    reg.cancel(&a);
    reg.cancel("op-99");
    assert!(flag_a.load(Ordering::SeqCst));
    assert!(!flag_b.load(Ordering::SeqCst));
}

#[test]
fn lookup_finds_the_handles_registered_under_an_id() {
    let mut reg = OpRegistry::new();
    let (tx0, _rx0) = channel();
    let (tx1, rx1) = channel();
    let flag0 = Arc::new(AtomicBool::new(false));
    let flag1 = Arc::new(AtomicBool::new(false));
    reg.register(tx0, flag0.clone());
    let second = reg.register(tx1, flag1.clone());
    assert!(reg.lookup("op-9").is_none());
    assert!(Arc::ptr_eq(&reg.lookup(&second).unwrap().cancel, &flag1));
    // The answer and the cancel go to the second operation, not the first.
    assert_eq!(reg.send(&second, UserInput::Collision(Resolution::Overwrite)), Ok(()));
    assert!(rx1.try_recv().is_ok());
    reg.cancel(&second);
    assert!(flag1.load(Ordering::SeqCst));
    assert!(!flag0.load(Ordering::SeqCst));
}
