use relay_core::pump::{
    Direction, Phase, Pump, PumpAction, PumpEnd, PumpEvent, PumpReport, SkipFilter, Verdict,
    BUFFER_SIZE,
};

/// Feeds the chunks to the pump, every write going through, and collects
/// what reaches the sink.
fn relay(pump: &mut Pump, chunks: &[Vec<u8>]) -> Vec<u8> {
    let mut sink: Vec<u8> = Vec::new();
    for chunk in chunks {
        match pump.step(PumpEvent::Chunk(chunk.len())) {
            PumpAction::Write(n) => {
                assert_eq!(n, chunk.len());
                sink.extend_from_slice(pump.pending_write(chunk).unwrap());
                assert_eq!(pump.step(PumpEvent::Written), PumpAction::Read);
            }
            PumpAction::Read => {}
            other => panic!("unexpected action {:?}", other),
        }
    }
    sink
}

#[test]
fn buffer_is_four_kibibytes() {
    assert_eq!(BUFFER_SIZE, 4096);
}

#[test]
fn opposite_swaps_directions() {
    assert_eq!(Direction::ClientToDestination.opposite(), Direction::DestinationToClient);
    assert_eq!(Direction::DestinationToClient.opposite(), Direction::ClientToDestination);
}

#[test]
fn filter_drops_exactly_the_first_k() {
    for k in 0usize..6 {
        let mut filter = SkipFilter::new(k);
        assert_eq!(filter.skip_count(), k);
        for i in 0usize..10 {
            let expected = if i < k { Verdict::Discard } else { Verdict::Forward };
            assert_eq!(filter.decide(), expected, "k={} i={}", k, i);
            assert_eq!(filter.skipped(), if i + 1 < k { i + 1 } else { k });
        }
    }
}

#[test]
fn filter_counter_is_clamped() {
    let mut filter = SkipFilter::new(2);
    for _ in 0..100 {
        filter.decide();
        assert!(filter.skipped() <= 2);
    }
    assert_eq!(filter.skipped(), 2);
}

#[test]
fn skip_two_of_three_chunks_delivers_only_the_third() {
    let a = vec![b'A'; 10];
    let b = vec![b'B'; 10];
    let c = vec![b'C'; 10];
    let mut pump = Pump::new(Direction::ClientToDestination, 2);
    let sink = relay(&mut pump, &[a, b, c.clone()]);
    assert_eq!(sink, c);
    assert_eq!(sink.len(), 10);
    assert!(!sink.contains(&b'A'));
    assert!(!sink.contains(&b'B'));
    assert_eq!(pump.bytes_forwarded(), 10);
    assert_eq!(pump.chunks_skipped(), 2);
}

#[test]
fn skip_zero_is_transparent() {
    let chunks = vec![vec![1u8, 2, 3], vec![4u8], vec![5u8, 6, 7, 8, 9]];
    let mut pump = Pump::new(Direction::ClientToDestination, 0);
    let sink = relay(&mut pump, &chunks);
    assert_eq!(sink, vec![1u8, 2, 3, 4, 5, 6, 7, 8, 9]);
    assert_eq!(pump.bytes_forwarded(), 9);
    assert_eq!(pump.chunks_skipped(), 0);
}

#[test]
fn skip_more_than_sent_delivers_nothing() {
    let chunks = vec![vec![1u8; 5], vec![2u8; 5]];
    let mut pump = Pump::new(Direction::ClientToDestination, 3);
    let sink = relay(&mut pump, &chunks);
    assert!(sink.is_empty());
    assert_eq!(pump.bytes_forwarded(), 0);
    assert_eq!(pump.chunks_skipped(), 2);
}

#[test]
fn pump_towards_client_never_skips() {
    let chunks = vec![vec![7u8; 4], vec![8u8; 4]];
    let mut pump = Pump::new(Direction::DestinationToClient, 5);
    assert_eq!(pump.direction(), Direction::DestinationToClient);
    let sink = relay(&mut pump, &chunks);
    assert_eq!(sink, vec![7u8, 7, 7, 7, 8, 8, 8, 8]);
    assert_eq!(pump.bytes_forwarded(), 8);
}

#[test]
fn skipped_chunk_is_dropped_whole() {
    let mut pump = Pump::new(Direction::ClientToDestination, 1);
    assert_eq!(pump.step(PumpEvent::Chunk(4096)), PumpAction::Read);
    assert_eq!(pump.phase(), Phase::Reading);
    assert_eq!(pump.bytes_forwarded(), 0);
    assert_eq!(pump.step(PumpEvent::Chunk(1)), PumpAction::Write(1));
    assert_eq!(pump.phase(), Phase::Writing(1));
}

#[test]
fn end_of_stream_stops_the_pump() {
    let mut pump = Pump::new(Direction::ClientToDestination, 0);
    assert!(!pump.is_finished());
    assert_eq!(pump.step(PumpEvent::Chunk(0)), PumpAction::Stop(PumpEnd::Eof));
    assert_eq!(pump.phase(), Phase::Finished(PumpEnd::Eof));
    assert!(pump.is_finished());
    assert_eq!(pump.step(PumpEvent::Chunk(5)), PumpAction::Nothing);
    assert_eq!(pump.step(PumpEvent::Cancel), PumpAction::Nothing);
    assert_eq!(pump.phase(), Phase::Finished(PumpEnd::Eof));
}

#[test]
fn end_of_stream_while_skipping_still_stops() {
    let mut pump = Pump::new(Direction::ClientToDestination, 3);
    assert_eq!(pump.step(PumpEvent::Chunk(8)), PumpAction::Read);
    assert_eq!(pump.step(PumpEvent::Chunk(0)), PumpAction::Stop(PumpEnd::Eof));
    assert_eq!(pump.chunks_skipped(), 1);
}

#[test]
fn read_failure_stops_the_pump() {
    let mut pump = Pump::new(Direction::DestinationToClient, 0);
    assert_eq!(pump.step(PumpEvent::ReadFailed), PumpAction::Stop(PumpEnd::ReadFailed));
    assert_eq!(pump.phase(), Phase::Finished(PumpEnd::ReadFailed));
}

#[test]
fn write_failure_stops_the_pump_and_counts_nothing() {
    let mut pump = Pump::new(Direction::ClientToDestination, 0);
    assert_eq!(pump.step(PumpEvent::Chunk(100)), PumpAction::Write(100));
    assert_eq!(pump.step(PumpEvent::WriteFailed), PumpAction::Stop(PumpEnd::WriteFailed));
    assert_eq!(pump.phase(), Phase::Finished(PumpEnd::WriteFailed));
    assert_eq!(pump.bytes_forwarded(), 0);
}

#[test]
fn cancel_stops_a_reading_and_a_writing_pump() {
    let mut reading = Pump::new(Direction::ClientToDestination, 0);
    assert_eq!(reading.step(PumpEvent::Cancel), PumpAction::Stop(PumpEnd::Cancelled));
    let mut writing = Pump::new(Direction::ClientToDestination, 0);
    assert_eq!(writing.step(PumpEvent::Chunk(3)), PumpAction::Write(3));
    assert_eq!(writing.step(PumpEvent::Cancel), PumpAction::Stop(PumpEnd::Cancelled));
    assert_eq!(writing.bytes_forwarded(), 0);
}

#[test]
fn events_that_do_not_fit_change_nothing() {
    let mut pump = Pump::new(Direction::ClientToDestination, 0);
    assert_eq!(pump.step(PumpEvent::Written), PumpAction::Nothing);
    assert_eq!(pump.step(PumpEvent::WriteFailed), PumpAction::Nothing);
    assert_eq!(pump.phase(), Phase::Reading);
    assert_eq!(pump.step(PumpEvent::Chunk(9)), PumpAction::Write(9));
    assert_eq!(pump.step(PumpEvent::Chunk(4)), PumpAction::Nothing);
    assert_eq!(pump.step(PumpEvent::ReadFailed), PumpAction::Nothing);
    assert_eq!(pump.phase(), Phase::Writing(9));
}

#[test]
fn byte_count_adds_up_and_saturates() {
    let mut pump = Pump::new(Direction::DestinationToClient, 0);
    assert_eq!(pump.step(PumpEvent::Chunk(4096)), PumpAction::Write(4096));
    assert_eq!(pump.step(PumpEvent::Written), PumpAction::Read);
    assert_eq!(pump.step(PumpEvent::Chunk(5)), PumpAction::Write(5));
    assert_eq!(pump.step(PumpEvent::Written), PumpAction::Read);
    assert_eq!(pump.bytes_forwarded(), 4101);
    if usize::MAX as u128 == u64::MAX as u128 {
        assert_eq!(pump.step(PumpEvent::Chunk(usize::MAX)), PumpAction::Write(usize::MAX));
        assert_eq!(pump.step(PumpEvent::Written), PumpAction::Read);
        assert_eq!(pump.bytes_forwarded(), u64::MAX);
    }
}

#[test]
fn pump_end_knows_errors() {
    assert!(PumpEnd::ReadFailed.is_error());
    assert!(PumpEnd::WriteFailed.is_error());
    assert!(!PumpEnd::Eof.is_error());
    assert!(!PumpEnd::Cancelled.is_error());
}

#[test]
fn pending_write_is_the_whole_chunk() {
    let mut buffer = [0u8; BUFFER_SIZE];
    buffer[..5].copy_from_slice(b"hello");
    let mut pump = Pump::new(Direction::DestinationToClient, 0);
    assert_eq!(pump.pending_write(&buffer), None);
    assert_eq!(pump.step(PumpEvent::Chunk(5)), PumpAction::Write(5));
    assert_eq!(pump.pending_write(&buffer), Some(&b"hello"[..]));
    assert_eq!(pump.pending_write(&buffer[..4]), None);
    assert_eq!(pump.step(PumpEvent::Written), PumpAction::Read);
    assert_eq!(pump.pending_write(&buffer), None);
}

#[test]
fn stopped_pump_reports_its_end_and_its_bytes() {
    let mut pump = Pump::new(Direction::ClientToDestination, 1);
    assert_eq!(pump.report(), None);
    pump.step(PumpEvent::Chunk(7));
    pump.step(PumpEvent::Chunk(11));
    assert_eq!(pump.report(), None);
    pump.step(PumpEvent::Written);
    pump.step(PumpEvent::Chunk(0));
    assert_eq!(pump.report(), Some(PumpReport { end: PumpEnd::Eof, bytes: 11 }));
}
