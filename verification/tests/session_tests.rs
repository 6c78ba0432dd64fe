use security_camera::session::{SessionMsg, SessionWorker, WorkerStep};

#[test]
fn frames_are_encoded_in_order() {
    let mut w: SessionWorker<u32> = SessionWorker::new();
    match w.handle(SessionMsg::Frame(7)) {
        WorkerStep::Encode(f) => assert_eq!(f, 7),
        _ => panic!("frame must be encoded"),
    }
    match w.handle(SessionMsg::Frame(8)) {
        WorkerStep::Encode(f) => assert_eq!(f, 8),
        _ => panic!("frame must be encoded"),
    }
    assert!(!w.finished);
}

#[test]
fn later_best_supersedes_earlier() {
    let mut w: SessionWorker<u32> = SessionWorker::new();
    assert!(matches!(w.handle(SessionMsg::Best(1, "t1".to_string())), WorkerStep::Noted));
    assert!(matches!(w.handle(SessionMsg::Best(2, "t2".to_string())), WorkerStep::Noted));
    assert_eq!(w.best, Some((2, "t2".to_string())));
}

#[test]
fn end_finishes_and_keeps_best() {
    let mut w: SessionWorker<u32> = SessionWorker::new();
    w.handle(SessionMsg::Best(5, "t".to_string()));
    assert!(matches!(w.handle(SessionMsg::End), WorkerStep::Finished));
    assert!(w.finished);
    assert_eq!(w.best, Some((5, "t".to_string())));
}

#[test]
fn messages_after_end_have_no_effect() {
    let mut w: SessionWorker<u32> = SessionWorker::new();
    w.handle(SessionMsg::Best(5, "t".to_string()));
    assert!(matches!(w.handle(SessionMsg::End), WorkerStep::Finished));
    // Frames after End are dropped.
    assert!(matches!(w.handle(SessionMsg::Frame(9)), WorkerStep::Ignored));
    // A later best does not replace the held one.
    assert!(matches!(w.handle(SessionMsg::Best(99, "x".to_string())), WorkerStep::Ignored));
    // Only the first End finishes; a second one is ignored.
    assert!(matches!(w.handle(SessionMsg::End), WorkerStep::Ignored));
    assert_eq!(w.best, Some((5, "t".to_string())));
}

#[test]
fn closing_photo_prefers_best() {
    let mut w: SessionWorker<u32> = SessionWorker::new();
    w.handle(SessionMsg::Best(5, "20260102-120503".to_string()));
    w.handle(SessionMsg::End);
    assert_eq!(
        w.closing_photo("porch", "captures/people/photos/porch20260102-120000-first.jpg"),
        "captures/people/photos/porch20260102-120503-best.jpg"
    );
}

#[test]
fn closing_photo_falls_back_to_first() {
    let mut w: SessionWorker<u32> = SessionWorker::new();
    w.handle(SessionMsg::Frame(1));
    w.handle(SessionMsg::End);
    assert_eq!(
        w.closing_photo("porch", "captures/people/photos/porch20260102-120000-first.jpg"),
        "captures/people/photos/porch20260102-120000-first.jpg"
    );
}

#[test]
fn end_without_best_leaves_none() {
    let mut w: SessionWorker<u32> = SessionWorker::new();
    w.handle(SessionMsg::Frame(1));
    assert!(matches!(w.handle(SessionMsg::End), WorkerStep::Finished));
    assert!(w.best.is_none());
}
