use solraiser::events::{CampaignCreated, CampaignDonated, CampaignEvent, CampaignWithdrawn};
use solraiser::store::{event_row, Block, EventKind, Store, Transaction};

fn block(slot: u64, hash: &str) -> Block {
    Block {
        slot,
        blockhash: hash.to_string(),
        parent_slot: if slot > 0 { Some(slot - 1) } else { None },
        block_time: Some(1_700_000_000),
    }
}

fn tx(signature: &str, slot: u64) -> Transaction {
    Transaction {
        signature: signature.to_string(),
        slot,
        block_time: Some(1_700_000_000),
        success: true,
        fee: Some(5_000),
    }
}

#[test]
fn upsert_block_is_idempotent_first_writer_wins() {
    let mut store = Store::new();
    store.upsert_block(block(10, "first-hash"));
    store.upsert_block(block(10, "second-hash"));
    assert_eq!(store.block_count(), 1);
    let stored = store.get_block(10).expect("slot 10 must be stored");
    assert_eq!(stored.blockhash, "first-hash");
}

#[test]
fn upsert_block_keeps_distinct_slots_apart() {
    let mut store = Store::new();
    store.upsert_block(block(1, "a"));
    store.upsert_block(block(2, "b"));
    assert_eq!(store.block_count(), 2);
    assert_eq!(store.get_block(1).unwrap().blockhash, "a");
    assert_eq!(store.get_block(2).unwrap().blockhash, "b");
    assert!(store.get_block(3).is_none());
}

#[test]
fn upsert_transaction_is_last_write_wins() {
    let mut store = Store::new();
    store.upsert_transaction(tx("abc", 10));
    store.upsert_transaction(tx("abc", 12));
    assert_eq!(store.transaction_count(), 1);
    let stored = store
        .get_transaction(&"abc".to_string())
        .expect("signature abc must be stored");
    assert_eq!(stored.slot, 12);
}

#[test]
fn upsert_transaction_overwrites_every_mutable_column() {
    let mut store = Store::new();
    store.upsert_transaction(tx("sig", 1));
    store.upsert_transaction(Transaction {
        signature: "sig".to_string(),
        slot: 2,
        block_time: None,
        success: false,
        fee: None,
    });
    let stored = store.get_transaction(&"sig".to_string()).unwrap();
    assert_eq!(stored.slot, 2);
    assert_eq!(stored.block_time, None);
    assert!(!stored.success);
    assert_eq!(stored.fee, None);
}

#[test]
fn unknown_transaction_is_not_found() {
    let store = Store::new();
    assert!(store.get_transaction(&"missing".to_string()).is_none());
    assert_eq!(store.transaction_count(), 0);
}

#[test]
fn campaign_events_are_append_only_and_may_duplicate() {
    let mut store = Store::new();
    let ev = || {
        CampaignEvent::Donated(CampaignDonated {
            campaign_id: 4,
            donor_pubkey: vec![1; 32],
            amount: 20,
        })
    };
    store.insert_campaign_event(event_row(&"s".to_string(), 5, ev()));
    store.insert_campaign_event(event_row(&"s".to_string(), 5, ev()));
    assert_eq!(store.campaign_event_count(), 2);
    let row = store.campaign_event_at(0);
    assert_eq!(row.event_type, EventKind::Donated);
    assert_eq!(row.campaign_id, 4);
    assert_eq!(row.amount, Some(20));
    assert_eq!(row.goal_amount, None);
    assert_eq!(row.deadline, None);
    assert_eq!(row.metadata_url, None);
    assert_eq!(row.user_pubkey, vec![1; 32]);
}

#[test]
fn event_row_fills_created_columns() {
    let row = event_row(
        &"sig".to_string(),
        9,
        CampaignEvent::Created(CampaignCreated {
            campaign_id: 8,
            creator_pubkey: vec![2; 32],
            goal_amount: 1000,
            deadline: 123,
            metadata_url: "u".to_string(),
        }),
    );
    assert_eq!(row.event_type, EventKind::Created);
    assert_eq!(row.signature, "sig");
    assert_eq!(row.slot, 9);
    assert_eq!(row.amount, None);
    assert_eq!(row.goal_amount, Some(1000));
    assert_eq!(row.deadline, Some(123));
    assert_eq!(row.metadata_url, Some("u".to_string()));
    assert_eq!(row.user_pubkey, vec![2; 32]);
}

#[test]
fn event_row_fills_withdrawn_columns() {
    let row = event_row(
        &"sig".to_string(),
        9,
        CampaignEvent::Withdrawn(CampaignWithdrawn {
            campaign_id: 8,
            creator_pubkey: vec![3; 32],
            amount: 77,
        }),
    );
    assert_eq!(row.event_type, EventKind::Withdrawn);
    assert_eq!(row.amount, Some(77));
    assert_eq!(row.goal_amount, None);
    assert_eq!(row.metadata_url, None);
    assert_eq!(row.user_pubkey, vec![3; 32]);
}

#[test]
fn max_block_slot_tracks_the_highest_slot() {
    let mut store = Store::new();
    assert_eq!(store.max_block_slot(), None);
    store.upsert_block(block(5, "a"));
    store.upsert_block(block(30, "b"));
    store.upsert_block(block(12, "c"));
    assert_eq!(store.max_block_slot(), Some(30));
}
