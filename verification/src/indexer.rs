use vstd::prelude::*;
use crate::decoder::{parse_anchor_event, spec_scan_logs};
use crate::events::CampaignEventView;
use crate::store::{
    event_row, spec_event_row, spec_upsert_block, spec_upsert_transaction, Block, BlockView,
    CampaignEventRow, CampaignEventRowView, Store, StoreView, Transaction, TransactionView,
};
use crate::watermark::{spec_observe, Watermark};

verus! {

/// One raw log notification from the stream: produced by the subscriber,
/// consumed exactly once by the worker, never persisted directly.
pub struct LogMessage {
    pub signature: String,
    pub program_id: String,
    pub slot: u64,
}

/// Mathematical image of `LogMessage`.
pub struct LogMessageView {
    pub signature: Seq<char>,
    pub program_id: Seq<char>,
    pub slot: u64,
}

impl View for LogMessage {
    type V = LogMessageView;

    open spec fn view(&self) -> LogMessageView {
        LogMessageView {
            signature: self.signature@,
            program_id: self.program_id@,
            slot: self.slot,
        }
    }
}

/// The recent-block reference a fetched transaction carries. The network
/// answers in one of two message encodings; both are resolved to the hash at
/// the fetch boundary, and other encodings leave the reference unavailable.
pub enum BlockRef {
    Hash(String),
    Unavailable,
}

/// Mathematical image of `BlockRef`.
pub enum BlockRefView {
    Hash(Seq<char>),
    Unavailable,
}

impl View for BlockRef {
    type V = BlockRefView;

    open spec fn view(&self) -> BlockRefView {
        match self {
            BlockRef::Hash(h) => BlockRefView::Hash(h@),
            BlockRef::Unavailable => BlockRefView::Unavailable,
        }
    }
}

/// The status metadata of a confirmed transaction: whether it succeeded, the
/// fee it paid, and the log lines it emitted, when the node returned them.
pub struct TransactionMeta {
    pub success: bool,
    pub fee: u64,
    pub log_messages: Option<Vec<String>>,
}

/// Mathematical image of `TransactionMeta`.
pub struct TransactionMetaView {
    pub success: bool,
    pub fee: u64,
    pub log_messages: Option<Seq<Seq<char>>>,
}

impl View for TransactionMeta {
    type V = TransactionMetaView;

    open spec fn view(&self) -> TransactionMetaView {
        TransactionMetaView {
            success: self.success,
            fee: self.fee,
            log_messages: match self.log_messages {
                Some(ref lines) => Some(lines.deep_view()),
                None => None,
            },
        }
    }
}

/// A confirmed transaction's detail, reduced to the fields the worker
/// consumes. The fetch boundary resolves the network's response shapes into
/// this once; nothing downstream re-examines raw encodings.
pub struct FetchedTransaction {
    pub block_ref: BlockRef,
    pub block_time: Option<i64>,
    pub meta: Option<TransactionMeta>,
}

/// Mathematical image of `FetchedTransaction`.
pub struct FetchedTransactionView {
    pub block_ref: BlockRefView,
    pub block_time: Option<i64>,
    pub meta: Option<TransactionMetaView>,
}

impl View for FetchedTransaction {
    type V = FetchedTransactionView;

    open spec fn view(&self) -> FetchedTransactionView {
        FetchedTransactionView {
            block_ref: self.block_ref@,
            block_time: self.block_time,
            meta: match self.meta {
                Some(ref m) => Some(m@),
                None => None,
            },
        }
    }
}

/// The transaction detail was unavailable: the network call failed or the
/// transaction is not yet visible at the requested consistency level. The
/// caller must not assume the transaction exists.
pub struct FetchError {
    pub message: String,
}

/// What processing one notification did.
#[derive(Clone, Copy, Debug, PartialEq, Eq, Structural)]
pub enum ProcessOutcome {
    /// The fetch succeeded and the rows were written; `event_stored` says
    /// whether a decoded event row was appended as well.
    Stored { event_stored: bool },
    /// The fetch failed: the notification was abandoned after the watermark
    /// update — at most one attempt is ever made per notification.
    FetchFailed,
}

/// The block row the worker writes for a notification: the parent slot is the
/// preceding slot, absent for slot zero.
pub open spec fn spec_block_row(slot: u64, blockhash: Seq<char>, block_time: Option<i64>) -> BlockView {
    BlockView {
        slot,
        blockhash,
        parent_slot: if slot > 0 {
            Some((slot - 1) as u64)
        } else {
            None
        },
        block_time,
    }
}

/// The transaction row the worker writes: success only when the status
/// metadata is present and holds no error; the fee only when the metadata is
/// present.
pub open spec fn spec_transaction_row(
    signature: Seq<char>,
    slot: u64,
    ft: FetchedTransactionView,
) -> TransactionView {
    TransactionView {
        signature,
        slot,
        block_time: ft.block_time,
        success: match ft.meta {
            Some(m) => m.success,
            None => false,
        },
        fee: match ft.meta {
            Some(m) => Some(m.fee),
            None => None,
        },
    }
}

/// The event a fetched transaction's log output yields, when metadata and log
/// lines are both present.
pub open spec fn spec_fetched_event(ft: FetchedTransactionView) -> Option<CampaignEventView> {
    match ft.meta {
        Some(m) => match m.log_messages {
            Some(lines) => spec_scan_logs(lines),
            None => None,
        },
        None => None,
    }
}

/// The store contents after one notification is processed against one fetch
/// result: nothing on a failed fetch; otherwise the block row (when the block
/// reference is known), the transaction row, and the decoded event row, in
/// that order.
pub open spec fn spec_ingest(
    s: StoreView,
    msg: LogMessageView,
    fetched: Option<FetchedTransactionView>,
) -> StoreView {
    match fetched {
        None => s,
        Some(ft) => StoreView {
            blocks: match ft.block_ref {
                BlockRefView::Hash(h) => spec_upsert_block(
                    s.blocks,
                    spec_block_row(msg.slot, h, ft.block_time),
                ),
                BlockRefView::Unavailable => s.blocks,
            },
            transactions: spec_upsert_transaction(
                s.transactions,
                spec_transaction_row(msg.signature, msg.slot, ft),
            ),
            campaign_events: match spec_fetched_event(ft) {
                Some(e) => s.campaign_events.push(spec_event_row(msg.signature, msg.slot, e)),
                None => s.campaign_events,
            },
        },
    }
}

/// Law: replaying a notification against the same fetched detail — as
/// happens when the pipeline re-subscribes from an overlapping slot — leaves
/// block and transaction rows exactly as one processing left them: the block
/// write is ignored on conflict and the transaction write overwrites with
/// the same values. Event rows are insert-only, so the replay appends the
/// same event row once more; that duplication is the documented cost of
/// at-least-once delivery, stated here rather than hidden.
pub proof fn lemma_replay_is_idempotent_except_events(
    s: StoreView,
    msg: LogMessageView,
    ft: FetchedTransactionView,
)
    ensures
        spec_ingest(spec_ingest(s, msg, Some(ft)), msg, Some(ft)).blocks == spec_ingest(
            s,
            msg,
            Some(ft),
        ).blocks,
        spec_ingest(spec_ingest(s, msg, Some(ft)), msg, Some(ft)).transactions == spec_ingest(
            s,
            msg,
            Some(ft),
        ).transactions,
        spec_ingest(spec_ingest(s, msg, Some(ft)), msg, Some(ft)).campaign_events == match
            spec_fetched_event(ft) {
            Some(e) => spec_ingest(s, msg, Some(ft)).campaign_events.push(
                spec_event_row(msg.signature, msg.slot, e),
            ),
            None => spec_ingest(s, msg, Some(ft)).campaign_events,
        },
{
    let once = spec_ingest(s, msg, Some(ft));
    let twice = spec_ingest(once, msg, Some(ft));
    match ft.block_ref {
        BlockRefView::Hash(h) => {
            let b = spec_block_row(msg.slot, h, ft.block_time);
            assert(once.blocks.contains_key(b.slot));
        },
        BlockRefView::Unavailable => {},
    }
    assert(twice.transactions =~= once.transactions);
}

/// The rows one notification yields once its transaction detail is fetched,
/// for any persistence adapter that writes them through: the block row when
/// the block reference is known, the transaction row always, and the event
/// row when the log output decodes to one.
pub struct IngestRows {
    pub block: Option<Block>,
    pub transaction: Transaction,
    pub event: Option<CampaignEventRow>,
}

/// Build the rows a successfully fetched notification is persisted as.
pub fn ingest_rows(msg: &LogMessage, ft: &FetchedTransaction) -> (rows: IngestRows)
    ensures
        match rows.block {
            Some(b) => ft.block_ref matches BlockRef::Hash(h) && b@ == spec_block_row(
                msg.slot,
                h@,
                ft.block_time,
            ),
            None => ft.block_ref is Unavailable,
        },
        rows.transaction@ == spec_transaction_row(msg.signature@, msg.slot, ft@),
        match rows.event {
            Some(row) => spec_fetched_event(ft@) matches Some(e) && row@ == spec_event_row(
                msg.signature@,
                msg.slot,
                e,
            ),
            None => spec_fetched_event(ft@) is None,
        },
{
    let block = match &ft.block_ref {
        BlockRef::Hash(h) => {
            let parent_slot = if msg.slot > 0 {
                Some(msg.slot - 1)
            } else {
                None
            };
            Some(
                Block {
                    slot: msg.slot,
                    blockhash: h.clone(),
                    parent_slot,
                    block_time: ft.block_time,
                },
            )
        },
        BlockRef::Unavailable => None,
    };
    let (success, fee) = match &ft.meta {
        Some(m) => (m.success, Some(m.fee)),
        None => (false, None),
    };
    let transaction = Transaction {
        signature: msg.signature.clone(),
        slot: msg.slot,
        block_time: ft.block_time,
        success,
        fee,
    };
    let mut event: Option<CampaignEventRow> = None;
    if let Some(m) = &ft.meta {
        if let Some(logs) = &m.log_messages {
            if let Some(ev) = parse_anchor_event(logs) {
                event = Some(event_row(&msg.signature, msg.slot, ev));
            }
        }
    }
    IngestRows { block, transaction, event }
}

/// The ingestion core: the watermark and the mirrored store, advanced one
/// notification at a time, strictly sequentially.
pub struct SolanaIndexer {
    program_id: String,
    ws_url: String,
    watermark: Watermark,
    store: Store,
}

impl SolanaIndexer {
    /// The store rows keep their invariant.
    pub closed spec fn wf(&self) -> bool {
        self.store.wf()
    }

    /// The current watermark.
    pub closed spec fn spec_watermark(&self) -> u64 {
        self.watermark@
    }

    /// The mirrored store contents.
    pub closed spec fn spec_store(&self) -> StoreView {
        self.store@
    }

    /// The identifier of the watched program.
    pub closed spec fn spec_program_id(&self) -> Seq<char> {
        self.program_id@
    }

    /// The stream endpoint the subscriber connects to.
    pub closed spec fn spec_ws_url(&self) -> Seq<char> {
        self.ws_url@
    }

    pub fn new(program_id: String, ws_url: String, start_slot: u64) -> (ix: SolanaIndexer)
        ensures
            ix.wf(),
            ix.spec_watermark() == start_slot,
            ix.spec_store().blocks == Map::<u64, BlockView>::empty(),
            ix.spec_store().transactions == Map::<Seq<char>, TransactionView>::empty(),
            ix.spec_store().campaign_events == Seq::<CampaignEventRowView>::empty(),
            ix.spec_program_id() == program_id@,
            ix.spec_ws_url() == ws_url@,
    {
        SolanaIndexer {
            program_id,
            ws_url,
            watermark: Watermark::new(start_slot),
            store: Store::new(),
        }
    }

    /// The last indexed slot, as the status endpoint reports it.
    pub fn last_indexed_slot(&self) -> (s: u64)
        ensures
            s == self.spec_watermark(),
    {
        self.watermark.current()
    }

    /// The watched program's identifier.
    pub fn program_id(&self) -> (r: &String)
        ensures
            r@ == self.spec_program_id(),
    {
        &self.program_id
    }

    /// The stream endpoint.
    pub fn ws_url(&self) -> (r: &String)
        ensures
            r@ == self.spec_ws_url(),
    {
        &self.ws_url
    }

    /// The mirrored store, for readers.
    pub fn store(&self) -> (r: &Store)
        ensures
            r@ == self.spec_store(),
            self.wf() ==> r.wf(),
    {
        &self.store
    }

    /// Process one notification: advance the watermark first — always, even
    /// when the fetch failed — then write the block, transaction and event
    /// rows from the fetched detail. A failed fetch abandons the notification
    /// with no retry and leaves the store untouched.
    pub fn process_log_message(
        &mut self,
        msg: &LogMessage,
        fetched: &Result<FetchedTransaction, FetchError>,
    ) -> (outcome: ProcessOutcome)
        requires
            old(self).wf(),
        ensures
            final(self).wf(),
            final(self).spec_program_id() == old(self).spec_program_id(),
            final(self).spec_ws_url() == old(self).spec_ws_url(),
            final(self).spec_watermark() == spec_observe(old(self).spec_watermark(), msg.slot),
            final(self).spec_store() == spec_ingest(
                old(self).spec_store(),
                msg@,
                match fetched {
                    Ok(ft) => Some(ft@),
                    Err(_) => None,
                },
            ),
            outcome == match fetched {
                Ok(ft) => ProcessOutcome::Stored {
                    event_stored: spec_fetched_event(ft@) is Some,
                },
                Err(_) => ProcessOutcome::FetchFailed,
            },
    {
        self.watermark.observe(msg.slot);
        let ft = match fetched {
            Ok(ft) => ft,
            Err(_) => {
                return ProcessOutcome::FetchFailed;
            },
        };
        let rows = ingest_rows(msg, ft);
        if let Some(b) = rows.block {
            self.store.upsert_block(b);
        }
        self.store.upsert_transaction(rows.transaction);
        let event_stored = match rows.event {
            Some(row) => {
                self.store.insert_campaign_event(row);
                true
            },
            None => false,
        };
        ProcessOutcome::Stored { event_stored }
    }
}

} // verus!
