use tls_tunnel::select::{select_all, SourcePoll, Step};

#[test]
fn all_ready_rotates_through_every_source() {
    let mut s = select_all(3);
    let mut picks = Vec::new();
    for _ in 0..7 {
        assert_eq!(s.poll_target(), Some(picks.len() % 3));
        match s.report(SourcePoll::Ready) {
            Step::Emit(id) => picks.push(id),
            other => panic!("unexpected step {:?}", other),
        }
    }
    assert_eq!(picks, vec![0, 1, 2, 0, 1, 2, 0]);
}

#[test]
fn every_window_of_n_picks_holds_each_source() {
    let n = 4;
    let mut s = select_all(n);
    let mut picks = Vec::new();
    for _ in 0..3 * n {
        if let Step::Emit(id) = s.report(SourcePoll::Ready) {
            picks.push(id);
        }
    }
    for start in 0..picks.len() - n + 1 {
        let window = &picks[start..start + n];
        for id in 0..n {
            assert!(window.contains(&id));
        }
    }
}

#[test]
fn pass_skips_sources_that_are_not_ready() {
    let mut s = select_all(3);
    assert_eq!(s.report(SourcePoll::NotReady), Step::Poll(1));
    assert_eq!(s.report(SourcePoll::Ready), Step::Emit(1));
    assert_eq!(s.poll_target(), Some(2));
}

#[test]
fn pass_with_nothing_ready_keeps_the_cursor() {
    let mut s = select_all(2);
    assert_eq!(s.report(SourcePoll::Ready), Step::Emit(0));
    assert_eq!(s.poll_target(), Some(1));
    assert_eq!(s.report(SourcePoll::NotReady), Step::Poll(0));
    assert_eq!(s.report(SourcePoll::NotReady), Step::NotReady);
    assert_eq!(s.poll_target(), Some(1));
}

#[test]
fn exhausted_sources_leave_after_the_pass() {
    let mut s = select_all(3);
    assert_eq!(s.report(SourcePoll::Exhausted), Step::Poll(1));
    assert_eq!(s.live_count(), 3);
    assert_eq!(s.report(SourcePoll::Ready), Step::Emit(1));
    assert_eq!(s.live_count(), 2);
    assert_eq!(s.poll_target(), Some(2));
    assert_eq!(s.report(SourcePoll::Ready), Step::Emit(2));
    assert_eq!(s.poll_target(), Some(1));
}

#[test]
fn stream_finishes_when_every_source_is_exhausted() {
    let mut s = select_all(2);
    assert_eq!(s.report(SourcePoll::Exhausted), Step::Poll(1));
    assert_eq!(s.report(SourcePoll::Exhausted), Step::Finished);
    assert_eq!(s.poll_target(), None);
    assert_eq!(s.report(SourcePoll::Ready), Step::Finished);
}

#[test]
fn scheduler_without_sources_is_finished() {
    let mut s = select_all(0);
    assert_eq!(s.poll_target(), None);
    assert_eq!(s.report(SourcePoll::NotReady), Step::Finished);
}

#[test]
fn cursor_wraps_after_removal_at_the_end() {
    let mut s = select_all(3);
    assert_eq!(s.report(SourcePoll::Ready), Step::Emit(0));
    assert_eq!(s.report(SourcePoll::Ready), Step::Emit(1));
    // Source 2 is exhausted, sources 0 and 1 have nothing.
    assert_eq!(s.report(SourcePoll::Exhausted), Step::Poll(0));
    assert_eq!(s.report(SourcePoll::NotReady), Step::Poll(1));
    assert_eq!(s.report(SourcePoll::NotReady), Step::NotReady);
    assert_eq!(s.live_count(), 2);
    assert_eq!(s.poll_target(), Some(0));
}
