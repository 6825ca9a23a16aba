//! End-to-end behaviour of the update subsystem: sessions, the size cap,
//! ordering hazards and the sealed image.

use otaflow::coordinator::{ChunkResponse, FinishResponse, UpdateCoordinator, MAX_LEN};
use otaflow::writer::{UpdateCommand, UpdateWriter, WriterPhase};

const CT: &[u8] = b"multipart/form-data; boundary=XYZ";

fn chunk_body(index: &str, chunk: &[u8]) -> Vec<u8> {
    let mut b = Vec::new();
    b.extend_from_slice(b"--XYZ\r\nContent-Disposition: form-data; name=\"index\"\r\n\r\n");
    b.extend_from_slice(index.as_bytes());
    b.extend_from_slice(b"\r\n--XYZ\r\nContent-Disposition: form-data; name=\"chunk\"\r\n\r\n");
    b.extend_from_slice(chunk);
    b.extend_from_slice(b"\r\n--XYZ--");
    b
}

/// The tightest framing the grammar accepts: a one-byte boundary and bare
/// `name="..."` headers, leaving room for chunks near the size cap.
fn tight_chunk_body(index: &str, chunk: &[u8]) -> Vec<u8> {
    let mut b = Vec::new();
    b.extend_from_slice(b"--B\r\nname=\"index\"\r\n\r\n");
    b.extend_from_slice(index.as_bytes());
    b.extend_from_slice(b"\r\n--B\r\nname=\"chunk\"\r\n\r\n");
    b.extend_from_slice(chunk);
    b.extend_from_slice(b"\r\n--B--");
    b
}

fn index_only_body(index: &str) -> Vec<u8> {
    let mut b = Vec::new();
    b.extend_from_slice(b"--XYZ\r\nContent-Disposition: form-data; name=\"index\"\r\n\r\n");
    b.extend_from_slice(index.as_bytes());
    b.extend_from_slice(b"\r\n--XYZ--");
    b
}

#[test]
fn three_chunks_then_finish_seals_image() {
    let mut c = UpdateCoordinator::new();
    let tight_ct: &[u8] = b"multipart/form-data; boundary=B";
    let first = vec![b'a'; 4000];
    let second = vec![b'b'; 4000];
    let third = vec![b'c'; 1000];

    let body = tight_chunk_body("0", &first);
    assert!(body.len() <= MAX_LEN);
    let r = c.handle_chunk(Some(tight_ct), &body);
    assert_eq!(r, ChunkResponse::Accepted { total: 4000, mismatch: false });
    assert_eq!(otaflow::decimal::decimal_digits(4000), b"4000".to_vec());

    let r = c.handle_chunk(Some(tight_ct), &tight_chunk_body("4000", &second));
    assert_eq!(r, ChunkResponse::Accepted { total: 8000, mismatch: false });
    assert_eq!(otaflow::decimal::decimal_digits(8000), b"8000".to_vec());

    let r = c.handle_chunk(Some(tight_ct), &tight_chunk_body("8000", &third));
    assert_eq!(r, ChunkResponse::Accepted { total: 9000, mismatch: false });
    assert_eq!(otaflow::decimal::decimal_digits(9000), b"9000".to_vec());

    let r = c.handle_finish(0);
    assert_eq!(r, FinishResponse::Accepted);
    assert_eq!(c.writer_phase(), WriterPhase::Completed);

    let mut expected = first;
    expected.extend_from_slice(&second);
    expected.extend_from_slice(&third);
    assert_eq!(c.image(), Some(&expected));
}

#[test]
fn body_at_cap_is_accepted() {
    let mut c = UpdateCoordinator::new();
    let framing = chunk_body("0", b"").len();
    let data = vec![b'd'; MAX_LEN - framing];
    let body = chunk_body("0", &data);
    assert_eq!(body.len(), MAX_LEN);
    let r = c.handle_chunk(Some(CT), &body);
    assert_eq!(
        r,
        ChunkResponse::Accepted { total: MAX_LEN - framing, mismatch: false },
    );
}

#[test]
fn body_over_cap_is_rejected_without_commands() {
    let mut c = UpdateCoordinator::new();
    let body = chunk_body("0", &vec![b'd'; MAX_LEN]);
    assert!(body.len() > MAX_LEN);
    let r = c.handle_chunk(Some(CT), &body);
    assert_eq!(r, ChunkResponse::TooLarge);
    // No command was enqueued: the writer still awaits its first Start.
    assert_eq!(c.writer_phase(), WriterPhase::Idle);
    assert_eq!(c.committed(), 0);
}

#[test]
fn oversized_then_fresh_start_succeeds() {
    let mut c = UpdateCoordinator::new();
    let r = c.handle_chunk(Some(CT), &chunk_body("0", &vec![b'x'; MAX_LEN]));
    assert_eq!(r, ChunkResponse::TooLarge);
    let r = c.handle_chunk(Some(CT), &chunk_body("0", b"fresh"));
    assert_eq!(r, ChunkResponse::Accepted { total: 5, mismatch: false });
    assert_eq!(c.writer_phase(), WriterPhase::Active);
}

#[test]
fn start_twice_aborts_first_session() {
    let mut c = UpdateCoordinator::new();
    let r = c.handle_chunk(Some(CT), &chunk_body("0", b"AAAA"));
    assert_eq!(r, ChunkResponse::Accepted { total: 4, mismatch: false });

    // A second index-0 submission sends Start, aborting the open session;
    // its own chunk then lands on an idle writer and kills the worker.
    let r = c.handle_chunk(Some(CT), &chunk_body("0", b"BBBB"));
    assert_eq!(r, ChunkResponse::Stalled);
    assert_eq!(c.writer_phase(), WriterPhase::Dead);

    // Nothing was sealed: no byte of the first session reaches any image.
    let r = c.handle_finish(0);
    assert_eq!(r, FinishResponse::Accepted);
    assert_eq!(c.image(), None);
}

#[test]
fn finish_before_start_kills_the_worker() {
    let mut c = UpdateCoordinator::new();
    let r = c.handle_finish(0);
    assert_eq!(r, FinishResponse::Accepted);
    assert_eq!(c.writer_phase(), WriterPhase::Dead);

    // No later Start sequence makes progress.
    let r = c.handle_chunk(Some(CT), &chunk_body("0", b"AAAA"));
    assert_eq!(r, ChunkResponse::Stalled);
    assert_eq!(c.writer_phase(), WriterPhase::Dead);
    assert_eq!(c.committed(), 0);
    let r = c.handle_chunk(Some(CT), &chunk_body("0", b"BBBB"));
    assert_eq!(r, ChunkResponse::Stalled);
    assert_eq!(c.committed(), 0);
}

#[test]
fn chunk_before_start_kills_the_worker() {
    let mut c = UpdateCoordinator::new();
    // A non-zero index sends no Start, so the chunk hits an idle writer.
    let r = c.handle_chunk(Some(CT), &chunk_body("5", b"AAAA"));
    assert_eq!(r, ChunkResponse::Stalled);
    assert_eq!(c.writer_phase(), WriterPhase::Dead);
}

#[test]
fn mismatched_index_still_writes() {
    let mut c = UpdateCoordinator::new();
    let r = c.handle_chunk(Some(CT), &chunk_body("0", b"0123456789"));
    assert_eq!(r, ChunkResponse::Accepted { total: 10, mismatch: false });

    // The declared index disagrees with the total; the chunk is written
    // and the total advances all the same.
    let r = c.handle_chunk(Some(CT), &chunk_body("999", b"abcde"));
    assert_eq!(r, ChunkResponse::Accepted { total: 15, mismatch: true });
    assert_eq!(c.target_bytes(), &b"0123456789abcde".to_vec());
    assert_eq!(c.writer_phase(), WriterPhase::Active);
}

#[test]
fn chunkless_zero_index_strands_session() {
    let mut c = UpdateCoordinator::new();
    // Start goes out before the chunk part's presence is checked.
    let r = c.handle_chunk(Some(CT), &index_only_body("0"));
    assert_eq!(r, ChunkResponse::NoChunk);
    assert_eq!(c.writer_phase(), WriterPhase::Active);

    // A later non-zero index lands its chunk in the stranded session.
    let r = c.handle_chunk(Some(CT), &chunk_body("17", b"late"));
    assert_eq!(r, ChunkResponse::Accepted { total: 4, mismatch: true });
}

#[test]
fn bad_requests_leave_state_alone() {
    let mut c = UpdateCoordinator::new();
    let r = c.handle_chunk(Some(b"text/plain"), &chunk_body("0", b"AAAA"));
    assert_eq!(r, ChunkResponse::NoBoundary);
    let r = c.handle_chunk(Some(CT), b"--XYZ\r\nbroken");
    assert_eq!(r, ChunkResponse::Malformed);
    let r = c.handle_chunk(Some(CT), &chunk_body("ten", b"AAAA"));
    assert_eq!(r, ChunkResponse::NoIndex);
    assert_eq!(c.writer_phase(), WriterPhase::Idle);
    assert_eq!(c.committed(), 0);
}

#[test]
fn oversized_finish_is_rejected() {
    let mut c = UpdateCoordinator::new();
    let r = c.handle_finish(MAX_LEN + 1);
    assert_eq!(r, FinishResponse::TooLarge);
    assert_eq!(c.writer_phase(), WriterPhase::Idle);
    let r = c.handle_finish(MAX_LEN);
    assert_eq!(r, FinishResponse::Accepted);
}

#[test]
fn write_failure_is_fatal_to_the_worker() {
    let mut w = UpdateWriter::new();
    let acked = w.apply(UpdateCommand::Start);
    assert!(!acked);
    assert_eq!(w.phase(), WriterPhase::Active);
    w.note_write_failure();
    assert_eq!(w.phase(), WriterPhase::Dead);
    let acked = w.apply(UpdateCommand::Chunk(b"AAAA".to_vec()));
    assert!(!acked);
    assert_eq!(w.phase(), WriterPhase::Dead);
}

#[test]
fn tracker_reports_pre_update_total_and_wraps() {
    let mut t = otaflow::coordinator::ByteOffsetTracker::new();
    assert_eq!(t.total(), 0);
    assert_eq!(t.add(4000), 0);
    assert_eq!(t.add(5000), 4000);
    assert_eq!(t.total(), 9000);

    let mut t = otaflow::coordinator::ByteOffsetTracker::new();
    assert_eq!(t.add(usize::MAX), 0);
    // The counter wraps at the word bound, as the atomic add does.
    assert_eq!(t.add(3), usize::MAX);
    assert_eq!(t.total(), 2);
}

#[test]
fn signal_is_a_single_slot_rendezvous() {
    let mut s = otaflow::coordinator::ChunkReadySignal::new();
    assert!(!s.take());
    s.set();
    assert!(s.take());
    // Observing clears the slot: nothing is pending afterwards.
    assert!(!s.take());
}
