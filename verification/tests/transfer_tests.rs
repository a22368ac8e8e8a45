use sftp_engine::transfer::{
    cancel_cleanup_side, ArtifactSide, TransferEvent, TransferObs, TransferState,
};
use sftp_engine::transfers::TransferDirection;

fn progress_bytes(ev: &TransferEvent) -> u64 {
    match ev {
        TransferEvent::Progress { bytes_transferred, .. } => *bytes_transferred,
        _ => panic!("expected a Progress event"),
    }
}

#[test]
fn completed_download_accounts_for_every_byte() {
    // a file of 150_000 bytes moved in 64 KiB chunks
    let total: u64 = 150_000;
    let chunks: [u64; 3] = [65_536, 65_536, 18_928];
    let mut st = TransferState::begin("archive.tar".to_string(), total);
    let mut events: Vec<TransferEvent> = Vec::new();
    for c in chunks {
        events.push(st.step(TransferObs::Chunk(c)));
    }
    let terminal = st.step(TransferObs::Eof);

    // one Progress per chunk, cumulative counts, deltas summing to the size
    assert_eq!(events.len(), 3);
    assert_eq!(progress_bytes(&events[0]), 65_536);
    assert_eq!(progress_bytes(&events[1]), 131_072);
    assert_eq!(progress_bytes(&events[2]), 150_000);
    let mut prev: u64 = 0;
    let mut delta_sum: u64 = 0;
    for ev in &events {
        let b = progress_bytes(ev);
        delta_sum += b - prev;
        prev = b;
    }
    assert_eq!(delta_sum, total);
    // the final Progress event's count equals the (stat-reported) total
    match &events[2] {
        TransferEvent::Progress { bytes_transferred, total_bytes, filename } => {
            assert_eq!(*bytes_transferred, *total_bytes);
            assert_eq!(filename, "archive.tar");
        },
        _ => panic!("expected a Progress event"),
    }
    match terminal {
        TransferEvent::Complete { filename } => assert_eq!(filename, "archive.tar".to_string()),
        _ => panic!("expected the Complete event"),
    }
}

#[test]
fn cancelled_transfer_ends_with_cancellation_error() {
    let mut st = TransferState::begin("big.iso".to_string(), 1 << 30);
    let first = st.step(TransferObs::Chunk(65_536));
    assert_eq!(progress_bytes(&first), 65_536);
    // the cancellation signal wins the race at the next chunk boundary
    let terminal = st.step(TransferObs::Cancelled);
    match terminal {
        TransferEvent::Error { filename, message } => {
            assert_eq!(filename, "big.iso".to_string());
            assert_eq!(message, "Transfer cancelled".to_string());
        },
        _ => panic!("expected the cancellation Error event"),
    }
}

#[test]
fn failed_step_surfaces_its_stage_message() {
    let mut st = TransferState::begin("notes.txt".to_string(), 10);
    let terminal = st.step(TransferObs::Failed("Failed to read from remote: broken pipe".to_string()));
    match terminal {
        TransferEvent::Error { filename, message } => {
            assert_eq!(filename, "notes.txt".to_string());
            assert_eq!(message, "Failed to read from remote: broken pipe".to_string());
        },
        _ => panic!("expected an Error event"),
    }
}

#[test]
fn progress_carries_possibly_stale_total() {
    // the stat-reported size is used only for the ratio: a short read still
    // counts what actually moved
    let mut st = TransferState::begin("f".to_string(), 100);
    let ev = st.step(TransferObs::Chunk(40));
    match ev {
        TransferEvent::Progress { bytes_transferred, total_bytes, .. } => {
            assert_eq!(bytes_transferred, 40);
            assert_eq!(total_bytes, 100);
        },
        _ => panic!("expected a Progress event"),
    }
}

#[test]
fn cancelled_download_discards_local_partial() {
    assert_eq!(cancel_cleanup_side(TransferDirection::Download), ArtifactSide::LocalFile);
    assert_eq!(cancel_cleanup_side(TransferDirection::Upload), ArtifactSide::RemoteFile);
}
