use pwmd::block_writer::{BlockWriterState, WriterAction, WriterCommand};

/// Runs the writer over `heights` appends followed by a flush, with an
/// appender that accepts only the next height in sequence (as the epoch
/// files do). Returns the heights written and the flush answer.
fn run(heights: &[u64]) -> (Vec<u64>, Result<(), String>) {
    let mut st = BlockWriterState::new();
    let mut written: Vec<u64> = Vec::new();
    for &h in heights {
        match st.next_action(WriterCommand::Append) {
            WriterAction::Append => {
                let expected = written.last().map(|x| x + 1).unwrap_or(1);
                let res = if h == expected {
                    written.push(h);
                    Ok(())
                } else {
                    Err(format!("epoch append out of order: height {h}, expected {expected}"))
                };
                st.record_append(res);
            }
            WriterAction::Skip => {}
            other => panic!("unexpected action {other:?}"),
        }
    }
    let flushed = match st.next_action(WriterCommand::Flush) {
        WriterAction::Reply(r) => r,
        other => panic!("unexpected action {other:?}"),
    };
    (written, flushed)
}

#[test]
fn preserves_append_order() {
    let (written, flushed) = run(&[1, 2, 3]);
    assert_eq!(written, vec![1, 2, 3]);
    assert_eq!(flushed, Ok(()));
}

#[test]
fn flushes_pending_blocks() {
    let (written, flushed) = run(&[1]);
    assert_eq!(written.len(), 1);
    assert!(flushed.is_ok());
}

#[test]
fn writer_stops_after_error() {
    let (written, flushed) = run(&[1, 3, 2]);
    assert!(flushed.is_err());
    assert_eq!(written, vec![1]);
    let mut st = BlockWriterState::new();
    st.record_append(Err("disk full".to_string()));
    st.record_append(Err("later".to_string()));
    assert_eq!(
        st.next_action(WriterCommand::Shutdown),
        WriterAction::Stop(Err("disk full".to_string()))
    );
    assert_eq!(st.next_action(WriterCommand::Append), WriterAction::Skip);
}

#[test]
fn writer_fresh_state_answers_ok() {
    let st = BlockWriterState::new();
    assert_eq!(st.next_action(WriterCommand::Append), WriterAction::Append);
    assert_eq!(st.next_action(WriterCommand::Flush), WriterAction::Reply(Ok(())));
    assert_eq!(st.next_action(WriterCommand::Shutdown), WriterAction::Stop(Ok(())));
}
