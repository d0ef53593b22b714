use tls_tunnel::relay::{Pipe, PipeAction};

fn drain(p: &mut Pipe, out: &mut Vec<u8>, chunk: usize) {
    while p.next_action() == PipeAction::Write {
        let n = p.pending().len().min(chunk);
        out.extend_from_slice(&p.pending()[..n]);
        p.on_written(n);
    }
}

#[test]
fn fresh_pipe_reads_first() {
    let p = Pipe::new();
    assert_eq!(p.next_action(), PipeAction::Read);
    assert!(p.pending().is_empty());
}

#[test]
fn bytes_are_delivered_in_order_across_partial_writes() {
    let mut p = Pipe::new();
    let mut out = Vec::new();
    p.on_read(b"hello, ");
    drain(&mut p, &mut out, 3);
    p.on_read(b"world");
    drain(&mut p, &mut out, 2);
    assert_eq!(out, b"hello, world".to_vec());
    assert_eq!(p.next_action(), PipeAction::Read);
}

#[test]
fn shutdown_comes_only_after_buffered_data() {
    let mut p = Pipe::new();
    p.on_read(b"abc");
    p.on_read(b"");
    assert_eq!(p.next_action(), PipeAction::Write);
    p.on_shutdown();
    assert!(!p.is_closed());
    p.on_written(1);
    assert_eq!(p.pending(), b"bc");
    assert_eq!(p.next_action(), PipeAction::Write);
    p.on_written(2);
    assert_eq!(p.next_action(), PipeAction::Shutdown);
    p.on_shutdown();
    assert!(p.is_closed());
    assert_eq!(p.next_action(), PipeAction::Done);
}

#[test]
fn reads_after_end_of_stream_are_ignored() {
    let mut p = Pipe::new();
    p.on_read(b"");
    p.on_read(b"late");
    assert!(p.pending().is_empty());
    assert_eq!(p.next_action(), PipeAction::Shutdown);
}

#[test]
fn error_ends_the_direction() {
    let mut p = Pipe::new();
    p.on_read(b"xyz");
    p.on_error();
    assert!(p.has_failed());
    assert_eq!(p.next_action(), PipeAction::Done);
}

#[test]
fn error_after_close_changes_nothing() {
    let mut p = Pipe::new();
    p.on_read(b"");
    p.on_shutdown();
    p.on_error();
    assert!(p.is_closed());
    assert!(!p.has_failed());
}
