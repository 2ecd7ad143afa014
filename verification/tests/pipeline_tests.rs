use base64::Engine;
use solraiser::codec::encode_created;
use solraiser::events::CampaignCreated;
use solraiser::indexer::{
    BlockRef, FetchError, FetchedTransaction, LogMessage, ProcessOutcome, SolanaIndexer,
    TransactionMeta,
};
use solraiser::queue::{BoundedQueue, CHANNEL_BUFFER_SIZE};
use solraiser::store::EventKind;
use solraiser::subscriber::{
    subscriber_step, SubscriberAction, SubscriberEvent, SubscriberPhase, RECONNECT_BACKOFF_SECS,
};
use solraiser::watermark::{slots_behind, Watermark};

fn msg(signature: &str, slot: u64) -> LogMessage {
    LogMessage {
        signature: signature.to_string(),
        program_id: "62NbBCCxPfR83xtgw3AaxKGHyyDdxobrcCGzA7s7LFie".to_string(),
        slot,
    }
}

fn created_data_line(campaign_id: u64) -> String {
    let mut data = vec![0u8; 8];
    data.extend_from_slice(&encode_created(&CampaignCreated {
        campaign_id,
        creator_pubkey: vec![0x55; 32],
        goal_amount: 10_000,
        deadline: 1_800_000_000,
        metadata_url: "https://example.com/m.json".to_string(),
    }));
    format!(
        "Program data: {}",
        base64::engine::general_purpose::STANDARD.encode(&data)
    )
}

#[test]
fn watermark_observes_the_running_maximum() {
    let mut wm = Watermark::new(0);
    for slot in [5u64, 3, 5, 9, 2] {
        wm.observe(slot);
    }
    assert_eq!(wm.current(), 9);
}

#[test]
fn watermark_starts_at_the_given_slot_and_never_drops() {
    let mut wm = Watermark::new(100);
    wm.observe(40);
    assert_eq!(wm.current(), 100);
    wm.observe(101);
    assert_eq!(wm.current(), 101);
}

#[test]
fn slots_behind_saturates_at_zero() {
    assert_eq!(slots_behind(120, 100), 20);
    assert_eq!(slots_behind(100, 120), 0);
    assert_eq!(slots_behind(7, 7), 0);
}

#[test]
fn notification_with_created_event_stores_all_three_rows() {
    let mut ix = SolanaIndexer::new(
        "62NbBCCxPfR83xtgw3AaxKGHyyDdxobrcCGzA7s7LFie".to_string(),
        "wss://api.mainnet-beta.solana.com".to_string(),
        0,
    );
    let fetched = Ok(FetchedTransaction {
        block_ref: BlockRef::Hash("9zQ4hash".to_string()),
        block_time: Some(1_700_000_123),
        meta: Some(TransactionMeta {
            success: true,
            fee: 5_000,
            log_messages: Some(vec![
                "Program invoke [1]".to_string(),
                created_data_line(7),
            ]),
        }),
    });
    let outcome = ix.process_log_message(&msg("S1", 100), &fetched);
    assert_eq!(outcome, ProcessOutcome::Stored { event_stored: true });
    assert_eq!(ix.last_indexed_slot(), 100);

    let store = ix.store();
    assert_eq!(store.block_count(), 1);
    let block = store.get_block(100).expect("block 100 must be stored");
    assert_eq!(block.blockhash, "9zQ4hash");
    assert_eq!(block.parent_slot, Some(99));
    assert_eq!(block.block_time, Some(1_700_000_123));

    assert_eq!(store.transaction_count(), 1);
    let tx = store
        .get_transaction(&"S1".to_string())
        .expect("transaction S1 must be stored");
    assert_eq!(tx.slot, 100);
    assert!(tx.success);
    assert_eq!(tx.fee, Some(5_000));

    assert_eq!(store.campaign_event_count(), 1);
    let row = store.campaign_event_at(0);
    assert_eq!(row.event_type, EventKind::Created);
    assert_eq!(row.campaign_id, 7);
    assert_eq!(row.signature, "S1");
    assert_eq!(row.slot, 100);
}

#[test]
fn failed_fetch_advances_the_watermark_but_writes_nothing() {
    let mut ix = SolanaIndexer::new("prog".to_string(), "wss://stream".to_string(), 10);
    let fetched: Result<FetchedTransaction, FetchError> = Err(FetchError {
        message: "not yet visible at confirmed".to_string(),
    });
    let outcome = ix.process_log_message(&msg("S2", 50), &fetched);
    assert_eq!(outcome, ProcessOutcome::FetchFailed);
    assert_eq!(ix.last_indexed_slot(), 50);
    assert_eq!(ix.store().block_count(), 0);
    assert_eq!(ix.store().transaction_count(), 0);
    assert_eq!(ix.store().campaign_event_count(), 0);
}

#[test]
fn unavailable_block_ref_stores_the_transaction_without_a_block() {
    let mut ix = SolanaIndexer::new("prog".to_string(), "wss://stream".to_string(), 0);
    let fetched = Ok(FetchedTransaction {
        block_ref: BlockRef::Unavailable,
        block_time: None,
        meta: None,
    });
    let outcome = ix.process_log_message(&msg("S3", 8), &fetched);
    assert_eq!(outcome, ProcessOutcome::Stored { event_stored: false });
    assert_eq!(ix.store().block_count(), 0);
    let tx = ix.store().get_transaction(&"S3".to_string()).unwrap();
    assert!(!tx.success);
    assert_eq!(tx.fee, None);
}

#[test]
fn slot_zero_block_has_no_parent() {
    let mut ix = SolanaIndexer::new("prog".to_string(), "wss://stream".to_string(), 0);
    let fetched = Ok(FetchedTransaction {
        block_ref: BlockRef::Hash("genesis".to_string()),
        block_time: None,
        meta: None,
    });
    ix.process_log_message(&msg("S4", 0), &fetched);
    assert_eq!(ix.store().get_block(0).unwrap().parent_slot, None);
}

#[test]
fn reprocessing_a_signature_keeps_one_transaction_row() {
    let mut ix = SolanaIndexer::new("prog".to_string(), "wss://stream".to_string(), 0);
    let fetch_at = |fee: u64| {
        Ok(FetchedTransaction {
            block_ref: BlockRef::Unavailable,
            block_time: None,
            meta: Some(TransactionMeta {
                success: true,
                fee,
                log_messages: None,
            }),
        })
    };
    ix.process_log_message(&msg("S5", 10), &fetch_at(1_000));
    ix.process_log_message(&msg("S5", 12), &fetch_at(2_000));
    assert_eq!(ix.store().transaction_count(), 1);
    let tx = ix.store().get_transaction(&"S5".to_string()).unwrap();
    assert_eq!(tx.slot, 12);
    assert_eq!(tx.fee, Some(2_000));
}

#[test]
fn replaying_a_notification_duplicates_only_the_event_row() {
    let mut ix = SolanaIndexer::new("prog".to_string(), "wss://stream".to_string(), 0);
    let fetched = Ok(FetchedTransaction {
        block_ref: BlockRef::Hash("h".to_string()),
        block_time: Some(1),
        meta: Some(TransactionMeta {
            success: true,
            fee: 10,
            log_messages: Some(vec![created_data_line(3)]),
        }),
    });
    ix.process_log_message(&msg("S8", 20), &fetched);
    ix.process_log_message(&msg("S8", 20), &fetched);
    assert_eq!(ix.store().block_count(), 1);
    assert_eq!(ix.store().transaction_count(), 1);
    assert_eq!(ix.store().campaign_event_count(), 2);
}

#[test]
fn full_queue_refuses_without_dropping_until_drained() {
    let mut q = BoundedQueue::new(2);
    assert!(q.try_send(msg("a", 1)).is_ok());
    assert!(q.try_send(msg("b", 2)).is_ok());
    // At capacity: the producer gets its notification back and must wait.
    let refused = q.try_send(msg("c", 3));
    let held = match refused {
        Err(m) => m,
        Ok(()) => panic!("a full queue must refuse the send"),
    };
    assert_eq!(held.signature, "c");
    assert_eq!(q.len(), 2);
    // The worker drains one slot; the held notification now fits.
    let drained = q.pop_front().expect("the queue holds two notifications");
    assert_eq!(drained.signature, "a");
    assert!(q.try_send(held).is_ok());
    // Arrival order is kept end to end.
    assert_eq!(q.pop_front().unwrap().signature, "b");
    assert_eq!(q.pop_front().unwrap().signature, "c");
    assert!(q.pop_front().is_none());
}

#[test]
fn queue_capacity_matches_the_configured_buffer() {
    let q = BoundedQueue::new(CHANNEL_BUFFER_SIZE);
    assert_eq!(q.capacity(), 1000);
    assert_eq!(q.len(), 0);
}

#[test]
fn subscriber_retries_after_a_failed_connect() {
    // The stream errors immediately on connect: the machine waits out the
    // fixed backoff and subscribes again, as often as it takes.
    let mut phase = SubscriberPhase::Disconnected;
    for _round in 0..3 {
        let (next, action) = subscriber_step(phase, SubscriberEvent::BackoffElapsed);
        assert_eq!(next, SubscriberPhase::Subscribing);
        assert!(matches!(action, SubscriberAction::BeginSubscribe));
        let (next, action) = subscriber_step(next, SubscriberEvent::SubscribeFailed);
        assert_eq!(next, SubscriberPhase::Disconnected);
        match action {
            SubscriberAction::WaitBackoff(secs) => assert_eq!(secs, RECONNECT_BACKOFF_SECS),
            _ => panic!("a failed subscribe must be answered with the backoff wait"),
        }
        phase = next;
    }
}

#[test]
fn subscriber_forwards_notifications_while_streaming() {
    let (phase, _) = subscriber_step(SubscriberPhase::Subscribing, SubscriberEvent::SubscribeSucceeded);
    assert_eq!(phase, SubscriberPhase::Streaming);
    let (phase, action) = subscriber_step(
        phase,
        SubscriberEvent::NotificationReceived(msg("S6", 44)),
    );
    assert_eq!(phase, SubscriberPhase::Streaming);
    match action {
        SubscriberAction::Forward(m) => {
            assert_eq!(m.signature, "S6");
            assert_eq!(m.slot, 44);
        }
        _ => panic!("a received notification must be forwarded"),
    }
}

#[test]
fn subscriber_reconnects_after_stream_errors_and_termination() {
    for event in [
        SubscriberEvent::StreamError,
        SubscriberEvent::StreamEnded,
        SubscriberEvent::QueueClosed,
    ] {
        let (phase, action) = subscriber_step(SubscriberPhase::Streaming, event);
        assert_eq!(phase, SubscriberPhase::Disconnected);
        assert!(matches!(action, SubscriberAction::WaitBackoff(5)));
    }
}

#[test]
fn subscriber_ignores_events_foreign_to_its_phase() {
    let (phase, action) = subscriber_step(
        SubscriberPhase::Disconnected,
        SubscriberEvent::NotificationReceived(msg("S7", 1)),
    );
    assert_eq!(phase, SubscriberPhase::Disconnected);
    assert!(matches!(action, SubscriberAction::Idle));
}
