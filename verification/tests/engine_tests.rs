use remedy::engine::{
    first_error, plan_mailbox, FetchedMessage, MailboxPlan, WorkerTask, WriterTask,
};
use remedy::errors::SyncError;
use remedy::flags::{flags_for_maildir, ProtocolFlag};

#[test]
fn worker_walks_its_chunk_in_order() {
    let mut w = WorkerTask::new(vec![7, 8]);
    assert_eq!(w.current(), Some(7));
    assert!(w.advance(1).is_ok());
    assert_eq!(w.current(), Some(8));
    assert!(w.advance(1).is_ok());
    assert_eq!(w.current(), None);
}

#[test]
fn worker_stops_on_bad_fetch_count() {
    let mut w = WorkerTask::new(vec![7, 8]);
    assert!(w.advance(1).is_ok());
    assert_eq!(w.advance(0), Err(SyncError::FetchFailed(8)));
    assert_eq!(w.current(), Some(8));
    assert_eq!(w.advance(2), Err(SyncError::FetchFailed(8)));
}

#[test]
fn writer_counts_stores_and_stops_on_failure() {
    let mut wr = WriterTask::new();
    assert!(wr.record_store(3, true).is_ok());
    assert!(wr.record_store(4, true).is_ok());
    assert_eq!(wr.stored, 2);
    assert_eq!(wr.record_store(5, false), Err(SyncError::StorageFailed(5)));
    assert_eq!(wr.stored, 2);
}

#[test]
fn first_error_of_all_ok_is_ok() {
    let results: Vec<Result<(), SyncError>> = vec![Ok(()), Ok(()), Ok(())];
    assert_eq!(first_error(&results), Ok(()));
    let none: Vec<Result<(), SyncError>> = Vec::new();
    assert_eq!(first_error(&none), Ok(()));
}

#[test]
fn first_error_reports_the_earliest_failure() {
    let results: Vec<Result<(), SyncError>> = vec![
        Ok(()),
        Err(SyncError::SelectFailed),
        Err(SyncError::SearchFailed),
    ];
    assert_eq!(first_error(&results), Err(SyncError::SelectFailed));
}

#[test]
fn first_error_covers_every_stage() {
    for e in [
        SyncError::CredentialCommandMalformed,
        SyncError::CredentialCommandFailed,
        SyncError::CredentialNotUtf8,
        SyncError::ConnectionFailed,
        SyncError::AuthenticationFailed,
        SyncError::SelectFailed,
        SyncError::SearchFailed,
        SyncError::FetchFailed(9),
        SyncError::StorageFailed(9),
    ] {
        let results: Vec<Result<(), SyncError>> = vec![Ok(()), Err(e)];
        assert_eq!(first_error(&results), Err(e));
    }
}

/// A failed fetch in one worker leaves the other workers of the mailbox
/// untouched: they complete their chunks, and the writer stores what they
/// fetched, before the mailbox pass reports the failure.
#[test]
fn sibling_workers_survive_one_fetch_failure() {
    let ids: Vec<u32> = vec![1, 2, 3, 4];
    let chunks = match plan_mailbox(&ids, 2) {
        MailboxPlan::Work { chunks, .. } => chunks,
        MailboxPlan::Empty => panic!("four identifiers must plan work"),
    };
    assert_eq!(chunks.len(), 2);

    // The first worker's very first fetch goes wrong.
    let mut w0 = WorkerTask::new(chunks[0].clone());
    let r0: Result<(), SyncError> = w0.advance(0);
    assert_eq!(r0, Err(SyncError::FetchFailed(1)));

    // The second worker still runs its whole chunk and hands its messages on.
    let mut channel: Vec<FetchedMessage> = Vec::new();
    let mut w1 = WorkerTask::new(chunks[1].clone());
    while let Some(id) = w1.current() {
        channel.push(FetchedMessage {
            identifier: id,
            flags: vec![ProtocolFlag::Seen],
            body: vec![b'm'],
        });
        w1.advance(1).unwrap();
    }

    // The writer stores everything the surviving worker fetched.
    let mut writer = WriterTask::new();
    let mut writer_result: Result<(), SyncError> = Ok(());
    for msg in &channel {
        writer_result = writer.record_store(msg.identifier, true);
        assert!(writer_result.is_ok());
    }
    assert_eq!(writer.stored, 2);

    // The mailbox pass reports the one failure, after every child finished.
    let results: Vec<Result<(), SyncError>> = vec![r0, Ok(()), writer_result];
    assert_eq!(first_error(&results), Err(SyncError::FetchFailed(1)));
}

/// Five identifiers over two configured workers: chunks of sizes two, two
/// and one, and every message stored exactly once with its mapped flags.
#[test]
fn five_messages_two_workers_end_to_end() {
    let ids: Vec<u32> = vec![10, 11, 12, 13, 14];
    let (chunks, capacity) = match plan_mailbox(&ids, 2) {
        MailboxPlan::Work { chunks, channel_capacity } => (chunks, channel_capacity),
        MailboxPlan::Empty => panic!("five identifiers must plan work"),
    };
    assert_eq!(capacity, 2);
    let sizes: Vec<usize> = chunks.iter().map(|c| c.len()).collect();
    assert_eq!(sizes, vec![2, 2, 1]);

    let mut channel: Vec<FetchedMessage> = Vec::new();
    for chunk in &chunks {
        let mut w = WorkerTask::new(chunk.clone());
        while let Some(id) = w.current() {
            channel.push(FetchedMessage {
                identifier: id,
                flags: vec![ProtocolFlag::Flagged, ProtocolFlag::Seen, ProtocolFlag::Other],
                body: vec![b'b'],
            });
            w.advance(1).unwrap();
        }
    }

    let mut writer = WriterTask::new();
    let mut stored_ids: Vec<u32> = Vec::new();
    for msg in &channel {
        assert_eq!(flags_for_maildir(&msg.flags), "FS");
        writer.record_store(msg.identifier, true).unwrap();
        stored_ids.push(msg.identifier);
    }
    assert_eq!(writer.stored, 5);
    stored_ids.sort();
    assert_eq!(stored_ids, ids);
}
