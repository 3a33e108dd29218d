use rget::error::DownloadError;
use rget::progress::{ProgressMode, ProgressReporter};
use rget::transfer::{run_transfer, take_read, transfer_step, ReadEvent, StepAction, TransferState};

#[test]
fn reporter_mode_selection() {
    assert_eq!(ProgressReporter::new(true, Some(5)).mode(), ProgressMode::Hidden);
    assert_eq!(ProgressReporter::new(true, None).mode(), ProgressMode::Hidden);
    assert_eq!(ProgressReporter::new(false, Some(9900)).mode(), ProgressMode::Bounded(9900));
    assert_eq!(ProgressReporter::new(false, None).mode(), ProgressMode::Indeterminate);
}

#[test]
fn reporter_counts_and_finishes() {
    let mut reporter = ProgressReporter::new(false, Some(10));
    assert_eq!(reporter.advanced(), 0);
    assert!(!reporter.is_finished());
    reporter.advance(4);
    reporter.advance(6);
    assert_eq!(reporter.advanced(), 10);
    reporter.finish();
    assert!(reporter.is_finished());
    assert_eq!(reporter.advanced(), 10);
}

#[test]
fn step_appends_and_advances() {
    let mut state = TransferState::new();
    let mut reporter = ProgressReporter::new(false, Some(5));
    let action = transfer_step(&mut state, &mut reporter, &ReadEvent::Bytes(vec![1, 2, 3]));
    assert_eq!(action, StepAction::Continue);
    assert_eq!(state.received(), 3);
    assert_eq!(reporter.advanced(), 3);
    let action = transfer_step(&mut state, &mut reporter, &ReadEvent::Bytes(vec![4, 5]));
    assert_eq!(action, StepAction::Continue);
    let action = transfer_step(&mut state, &mut reporter, &ReadEvent::Bytes(vec![]));
    assert_eq!(action, StepAction::Finish);
    assert!(reporter.is_finished());
    assert_eq!(reporter.advanced(), 5);
    assert_eq!(state.into_buffer(), vec![1, 2, 3, 4, 5]);
}

#[test]
fn step_aborts_on_read_error() {
    let mut state = TransferState::new();
    let mut reporter = ProgressReporter::new(false, None);
    let action = transfer_step(&mut state, &mut reporter, &ReadEvent::Failed);
    assert_eq!(action, StepAction::Abort);
    assert_eq!(state.received(), 0);
    assert!(!reporter.is_finished());
}

#[test]
fn transfer_accumulates_every_chunk() {
    let mut events = Vec::new();
    for i in 0..99u32 {
        events.push(ReadEvent::Bytes(vec![(i % 256) as u8; 100]));
    }
    events.push(ReadEvent::Bytes(vec![]));
    let mut reporter = ProgressReporter::new(false, Some(9900));
    let result = run_transfer(&events, &mut reporter);
    let buffer = result.unwrap();
    assert_eq!(buffer.len(), 9900);
    assert_eq!(reporter.advanced(), 9900);
    assert!(reporter.is_finished());
    assert_eq!(reporter.mode(), ProgressMode::Bounded(9900));
    assert_eq!(&buffer[0..100], &[0u8; 100][..]);
    assert_eq!(&buffer[9800..9900], &[98u8; 100][..]);
}

#[test]
fn transfer_stops_at_first_zero_read() {
    let events = vec![
        ReadEvent::Bytes(vec![7, 8]),
        ReadEvent::Bytes(vec![]),
        ReadEvent::Bytes(vec![9, 9, 9]),
    ];
    let mut reporter = ProgressReporter::new(false, None);
    let result = run_transfer(&events, &mut reporter);
    assert_eq!(result.unwrap(), vec![7, 8]);
    assert_eq!(reporter.advanced(), 2);
}

#[test]
fn read_error_discards_buffer() {
    let events = vec![
        ReadEvent::Bytes(vec![1, 2, 3]),
        ReadEvent::Failed,
        ReadEvent::Bytes(vec![4]),
    ];
    let mut reporter = ProgressReporter::new(false, Some(4));
    let result = run_transfer(&events, &mut reporter);
    assert_eq!(result, Err(DownloadError::Io));
    assert!(!reporter.is_finished());
    assert_eq!(reporter.advanced(), 3);
}

#[test]
fn empty_body_gives_empty_file() {
    let events = vec![ReadEvent::Bytes(vec![])];
    let mut reporter = ProgressReporter::new(true, None);
    let result = run_transfer(&events, &mut reporter);
    assert_eq!(result.unwrap(), Vec::<u8>::new());
    assert_eq!(reporter.advanced(), 0);
    assert!(reporter.is_finished());
}

#[test]
fn take_read_keeps_the_bytes_actually_read() {
    let buffer = vec![10, 11, 12, 13, 14];
    assert_eq!(take_read(buffer, 3), vec![10, 11, 12]);
    assert_eq!(take_read(vec![1, 2], 0), Vec::<u8>::new());
}
