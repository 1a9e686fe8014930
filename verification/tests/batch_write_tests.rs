use metri_engine::batch_write::{BatchAction, BatchWrite};

#[test]
fn empty_batches_are_done_at_once() {
    let (w, a) = BatchWrite::start::<u32, String>(Vec::new());
    assert_eq!(w.retries, 0);
    assert!(matches!(a, BatchAction::Finish { wait_ms: 0 }));
}

#[test]
fn unprocessed_requests_are_resent_with_doubling_waits() {
    let (mut w, a) = BatchWrite::start::<u32, String>(vec![1, 2, 3]);
    assert!(matches!(a, BatchAction::Send { wait_ms: 0, ref requests } if requests == &vec![1, 2, 3]));
    let mut waits = Vec::new();
    loop {
        match w.on_reply::<u32, String>(Ok(Some(vec![3]))) {
            BatchAction::Send { wait_ms, requests } => {
                assert_eq!(requests, vec![3]);
                waits.push(wait_ms);
            }
            BatchAction::Finish { wait_ms } => {
                waits.push(wait_ms);
                break;
            }
            BatchAction::Fail(e) => panic!("unexpected failure {e}"),
        }
    }
    assert_eq!(waits, vec![100, 200, 400, 800, 1600]);
    assert_eq!(w.retries, 5);
}

#[test]
fn replies_without_leftovers_or_with_errors_end_the_write() {
    let (mut w, _) = BatchWrite::start::<u32, String>(vec![1]);
    assert!(matches!(w.on_reply::<u32, String>(Ok(None)), BatchAction::Finish { wait_ms: 0 }));
    assert!(matches!(w.on_reply::<u32, String>(Ok(Some(Vec::new()))), BatchAction::Finish { wait_ms: 0 }));
    assert!(matches!(w.on_reply::<u32, String>(Err("throttled".to_string())), BatchAction::Fail(e) if e == "throttled"));
    assert_eq!(w.retries, 0);
}
