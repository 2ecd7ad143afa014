use vstd::prelude::*;
use crate::events::{CampaignEvent, CampaignEventView};

verus! {

/// A block row: created on first sight of a slot and never updated after.
pub struct Block {
    pub slot: u64,
    pub blockhash: String,
    pub parent_slot: Option<u64>,
    pub block_time: Option<i64>,
}

/// Mathematical image of `Block`.
pub struct BlockView {
    pub slot: u64,
    pub blockhash: Seq<char>,
    pub parent_slot: Option<u64>,
    pub block_time: Option<i64>,
}

impl View for Block {
    type V = BlockView;

    open spec fn view(&self) -> BlockView {
        BlockView {
            slot: self.slot,
            blockhash: self.blockhash@,
            parent_slot: self.parent_slot,
            block_time: self.block_time,
        }
    }
}

/// A transaction row: re-processing the same signature overwrites the rest of
/// the row with the latest observed values.
pub struct Transaction {
    pub signature: String,
    pub slot: u64,
    pub block_time: Option<i64>,
    pub success: bool,
    pub fee: Option<u64>,
}

/// Mathematical image of `Transaction`.
pub struct TransactionView {
    pub signature: Seq<char>,
    pub slot: u64,
    pub block_time: Option<i64>,
    pub success: bool,
    pub fee: Option<u64>,
}

impl View for Transaction {
    type V = TransactionView;

    open spec fn view(&self) -> TransactionView {
        TransactionView {
            signature: self.signature@,
            slot: self.slot,
            block_time: self.block_time,
            success: self.success,
            fee: self.fee,
        }
    }
}

/// The stored kind of a campaign event row.
#[derive(Clone, Copy, Debug, PartialEq, Eq, Structural)]
pub enum EventKind {
    Created,
    Donated,
    Withdrawn,
}

/// A campaign event row: append-only, one row per successfully decoded event
/// per transaction. Which optional columns are filled depends on the kind.
pub struct CampaignEventRow {
    pub signature: String,
    pub slot: u64,
    pub event_type: EventKind,
    pub campaign_id: u64,
    pub user_pubkey: Vec<u8>,
    pub amount: Option<u64>,
    pub goal_amount: Option<u64>,
    pub deadline: Option<i64>,
    pub metadata_url: Option<String>,
}

/// Mathematical image of `CampaignEventRow`.
pub struct CampaignEventRowView {
    pub signature: Seq<char>,
    pub slot: u64,
    pub event_type: EventKind,
    pub campaign_id: u64,
    pub user_pubkey: Seq<u8>,
    pub amount: Option<u64>,
    pub goal_amount: Option<u64>,
    pub deadline: Option<i64>,
    pub metadata_url: Option<Seq<char>>,
}

impl View for CampaignEventRow {
    type V = CampaignEventRowView;

    open spec fn view(&self) -> CampaignEventRowView {
        CampaignEventRowView {
            signature: self.signature@,
            slot: self.slot,
            event_type: self.event_type,
            campaign_id: self.campaign_id,
            user_pubkey: self.user_pubkey@,
            amount: self.amount,
            goal_amount: self.goal_amount,
            deadline: self.deadline,
            metadata_url: match self.metadata_url {
                Some(ref u) => Some(u@),
                None => None,
            },
        }
    }
}

/// The row a decoded event is stored as: the created kind fills goal, deadline
/// and URL and leaves the amount empty; the donated and withdrawn kinds fill
/// the amount and leave the rest empty; the subject key is the creator for
/// created and withdrawn, the donor for donated.
pub open spec fn spec_event_row(
    signature: Seq<char>,
    slot: u64,
    e: CampaignEventView,
) -> CampaignEventRowView {
    match e {
        CampaignEventView::Created(c) => CampaignEventRowView {
            signature,
            slot,
            event_type: EventKind::Created,
            campaign_id: c.campaign_id,
            user_pubkey: c.creator_pubkey,
            amount: None,
            goal_amount: Some(c.goal_amount),
            deadline: Some(c.deadline),
            metadata_url: Some(c.metadata_url),
        },
        CampaignEventView::Donated(d) => CampaignEventRowView {
            signature,
            slot,
            event_type: EventKind::Donated,
            campaign_id: d.campaign_id,
            user_pubkey: d.donor_pubkey,
            amount: Some(d.amount),
            goal_amount: None,
            deadline: None,
            metadata_url: None,
        },
        CampaignEventView::Withdrawn(w) => CampaignEventRowView {
            signature,
            slot,
            event_type: EventKind::Withdrawn,
            campaign_id: w.campaign_id,
            user_pubkey: w.creator_pubkey,
            amount: Some(w.amount),
            goal_amount: None,
            deadline: None,
            metadata_url: None,
        },
    }
}

/// Build the row a decoded event is stored as.
pub fn event_row(signature: &String, slot: u64, event: CampaignEvent) -> (row: CampaignEventRow)
    ensures
        row@ == spec_event_row(signature@, slot, event@),
{
    match event {
        CampaignEvent::Created(c) => CampaignEventRow {
            signature: signature.clone(),
            slot,
            event_type: EventKind::Created,
            campaign_id: c.campaign_id,
            user_pubkey: c.creator_pubkey,
            amount: None,
            goal_amount: Some(c.goal_amount),
            deadline: Some(c.deadline),
            metadata_url: Some(c.metadata_url),
        },
        CampaignEvent::Donated(d) => CampaignEventRow {
            signature: signature.clone(),
            slot,
            event_type: EventKind::Donated,
            campaign_id: d.campaign_id,
            user_pubkey: d.donor_pubkey,
            amount: Some(d.amount),
            goal_amount: None,
            deadline: None,
            metadata_url: None,
        },
        CampaignEvent::Withdrawn(w) => CampaignEventRow {
            signature: signature.clone(),
            slot,
            event_type: EventKind::Withdrawn,
            campaign_id: w.campaign_id,
            user_pubkey: w.creator_pubkey,
            amount: Some(w.amount),
            goal_amount: None,
            deadline: None,
            metadata_url: None,
        },
    }
}

/// The map a run of block rows denotes, keyed by slot; a later row with an
/// already-present slot would shadow the earlier one, which the store's
/// invariant rules out.
pub open spec fn blocks_as_map(rows: Seq<BlockView>) -> Map<u64, BlockView>
    decreases rows.len(),
{
    if rows.len() == 0 {
        Map::empty()
    } else {
        blocks_as_map(rows.drop_last()).insert(rows.last().slot, rows.last())
    }
}

/// The map a run of transaction rows denotes, keyed by signature.
pub open spec fn transactions_as_map(rows: Seq<TransactionView>) -> Map<Seq<char>, TransactionView>
    decreases rows.len(),
{
    if rows.len() == 0 {
        Map::empty()
    } else {
        transactions_as_map(rows.drop_last()).insert(rows.last().signature, rows.last())
    }
}

/// What one block write does to the stored map: insert, or keep the first
/// writer's row when the slot is already present.
pub open spec fn spec_upsert_block(m: Map<u64, BlockView>, b: BlockView) -> Map<u64, BlockView> {
    if m.contains_key(b.slot) {
        m
    } else {
        m.insert(b.slot, b)
    }
}

/// What one transaction write does to the stored map: insert or overwrite.
pub open spec fn spec_upsert_transaction(
    m: Map<Seq<char>, TransactionView>,
    t: TransactionView,
) -> Map<Seq<char>, TransactionView> {
    m.insert(t.signature, t)
}

/// The slot → row map a run of block rows with distinct slots denotes
/// contains exactly the slots of the rows.
proof fn lemma_blocks_map_contains(rows: Seq<BlockView>, slot: u64)
    ensures
        blocks_as_map(rows).contains_key(slot) <==> exists|i: int|
            0 <= i < rows.len() && rows[i].slot == slot,
    decreases rows.len(),
{
    if rows.len() > 0 {
        lemma_blocks_map_contains(rows.drop_last(), slot);
        assert(forall|i: int|
            0 <= i < rows.len() - 1 ==> rows.drop_last()[i] == rows[i]);
        if blocks_as_map(rows).contains_key(slot) {
            if slot == rows.last().slot {
                assert(rows[rows.len() - 1].slot == slot);
            }
        }
        if exists|i: int| 0 <= i < rows.len() && rows[i].slot == slot {
            let i = choose|i: int| 0 <= i < rows.len() && rows[i].slot == slot;
            if i < rows.len() - 1 {
                assert(rows.drop_last()[i].slot == slot);
            }
        }
    }
}

/// With distinct slots, the map sends each row's slot to that row.
proof fn lemma_blocks_map_index(rows: Seq<BlockView>, i: int)
    requires
        0 <= i < rows.len(),
        forall|a: int, b: int| 0 <= a < b < rows.len() ==> rows[a].slot != rows[b].slot,
    ensures
        blocks_as_map(rows).contains_key(rows[i].slot),
        blocks_as_map(rows)[rows[i].slot] == rows[i],
    decreases rows.len(),
{
    assert(forall|j: int| 0 <= j < rows.len() - 1 ==> rows.drop_last()[j] == rows[j]);
    if i < rows.len() - 1 {
        lemma_blocks_map_index(rows.drop_last(), i);
    }
}

/// Appending a block row inserts its slot into the map.
proof fn lemma_blocks_map_push(rows: Seq<BlockView>, b: BlockView)
    ensures
        blocks_as_map(rows.push(b)) == blocks_as_map(rows).insert(b.slot, b),
{
    assert(rows.push(b).drop_last() =~= rows);
    assert(rows.push(b).last() == b);
}

/// With distinct slots, the map has one entry per row.
proof fn lemma_blocks_map_len(rows: Seq<BlockView>)
    requires
        forall|a: int, b: int| 0 <= a < b < rows.len() ==> rows[a].slot != rows[b].slot,
    ensures
        blocks_as_map(rows).dom().finite(),
        blocks_as_map(rows).len() == rows.len(),
    decreases rows.len(),
{
    if rows.len() > 0 {
        assert(forall|j: int| 0 <= j < rows.len() - 1 ==> rows.drop_last()[j] == rows[j]);
        lemma_blocks_map_len(rows.drop_last());
        lemma_blocks_map_contains(rows.drop_last(), rows.last().slot);
    }
}

/// The signature → row map a run of transaction rows denotes contains exactly
/// the signatures of the rows.
proof fn lemma_transactions_map_contains(rows: Seq<TransactionView>, signature: Seq<char>)
    ensures
        transactions_as_map(rows).contains_key(signature) <==> exists|i: int|
            0 <= i < rows.len() && rows[i].signature == signature,
    decreases rows.len(),
{
    if rows.len() > 0 {
        lemma_transactions_map_contains(rows.drop_last(), signature);
        assert(forall|i: int|
            0 <= i < rows.len() - 1 ==> rows.drop_last()[i] == rows[i]);
        if transactions_as_map(rows).contains_key(signature) {
            if signature == rows.last().signature {
                assert(rows[rows.len() - 1].signature == signature);
            }
        }
        if exists|i: int| 0 <= i < rows.len() && rows[i].signature == signature {
            let i = choose|i: int| 0 <= i < rows.len() && rows[i].signature == signature;
            if i < rows.len() - 1 {
                assert(rows.drop_last()[i].signature == signature);
            }
        }
    }
}

/// With distinct signatures, the map sends each row's signature to that row.
proof fn lemma_transactions_map_index(rows: Seq<TransactionView>, i: int)
    requires
        0 <= i < rows.len(),
        forall|a: int, b: int|
            0 <= a < b < rows.len() ==> rows[a].signature != rows[b].signature,
    ensures
        transactions_as_map(rows).contains_key(rows[i].signature),
        transactions_as_map(rows)[rows[i].signature] == rows[i],
    decreases rows.len(),
{
    assert(forall|j: int| 0 <= j < rows.len() - 1 ==> rows.drop_last()[j] == rows[j]);
    if i < rows.len() - 1 {
        lemma_transactions_map_index(rows.drop_last(), i);
    }
}

/// Appending a transaction row inserts its signature into the map.
proof fn lemma_transactions_map_push(rows: Seq<TransactionView>, t: TransactionView)
    ensures
        transactions_as_map(rows.push(t)) == transactions_as_map(rows).insert(t.signature, t),
{
    assert(rows.push(t).drop_last() =~= rows);
    assert(rows.push(t).last() == t);
}

/// Overwriting the row that already holds a signature is, on the map, an
/// insert at that signature.
proof fn lemma_transactions_map_update(rows: Seq<TransactionView>, i: int, t: TransactionView)
    requires
        0 <= i < rows.len(),
        rows[i].signature == t.signature,
        forall|a: int, b: int|
            0 <= a < b < rows.len() ==> rows[a].signature != rows[b].signature,
    ensures
        transactions_as_map(rows.update(i, t)) == transactions_as_map(rows).insert(
            t.signature,
            t,
        ),
    decreases rows.len(),
{
    let rows2 = rows.update(i, t);
    assert(forall|j: int| 0 <= j < rows.len() - 1 ==> rows.drop_last()[j] == rows[j]);
    if i == rows.len() - 1 {
        assert(rows2.drop_last() =~= rows.drop_last());
        assert(rows2.last() == t);
        assert(transactions_as_map(rows2) =~= transactions_as_map(rows).insert(t.signature, t));
    } else {
        assert(rows2.drop_last() =~= rows.drop_last().update(i, t));
        assert(rows2.last() == rows.last());
        lemma_transactions_map_update(rows.drop_last(), i, t);
        assert(transactions_as_map(rows2) =~= transactions_as_map(rows).insert(t.signature, t));
    }
}

/// The relational mirror: block, transaction and event rows, written with the
/// same conflict handling as the persisted schema — insert-or-ignore on block
/// slots, overwrite on transaction signatures, append-only event rows.
pub struct Store {
    blocks: Vec<Block>,
    transactions: Vec<Transaction>,
    campaign_events: Vec<CampaignEventRow>,
}

/// Mathematical image of `Store`.
pub struct StoreView {
    pub blocks: Map<u64, BlockView>,
    pub transactions: Map<Seq<char>, TransactionView>,
    pub campaign_events: Seq<CampaignEventRowView>,
}

impl Store {
    /// The stored block rows, in insertion order.
    pub closed spec fn blocks_rows(&self) -> Seq<BlockView> {
        Seq::new(self.blocks@.len(), |i: int| self.blocks@[i]@)
    }

    /// The stored transaction rows, in insertion order.
    pub closed spec fn transactions_rows(&self) -> Seq<TransactionView> {
        Seq::new(self.transactions@.len(), |i: int| self.transactions@[i]@)
    }

    /// The stored event rows, in insertion order.
    pub closed spec fn events_rows(&self) -> Seq<CampaignEventRowView> {
        Seq::new(self.campaign_events@.len(), |i: int| self.campaign_events@[i]@)
    }

    pub closed spec fn view(&self) -> StoreView {
        StoreView {
            blocks: blocks_as_map(self.blocks_rows()),
            transactions: transactions_as_map(self.transactions_rows()),
            campaign_events: self.events_rows(),
        }
    }

    /// Each block slot and each transaction signature is held by at most one
    /// row, so the stored maps lose nothing.
    pub closed spec fn wf(&self) -> bool {
        &&& forall|a: int, b: int|
            0 <= a < b < self.blocks@.len() ==> self.blocks@[a].slot != self.blocks@[b].slot
        &&& forall|a: int, b: int|
            0 <= a < b < self.transactions@.len() ==> self.transactions@[a].signature@
                != self.transactions@[b].signature@
    }

    pub fn new() -> (s: Store)
        ensures
            s.wf(),
            s@.blocks == Map::<u64, BlockView>::empty(),
            s@.transactions == Map::<Seq<char>, TransactionView>::empty(),
            s@.campaign_events == Seq::<CampaignEventRowView>::empty(),
    {
        let s = Store { blocks: Vec::new(), transactions: Vec::new(), campaign_events: Vec::new() };
        proof {
            assert(s.blocks_rows() =~= Seq::<BlockView>::empty());
            assert(s.transactions_rows() =~= Seq::<TransactionView>::empty());
            assert(s.events_rows() =~= Seq::<CampaignEventRowView>::empty());
        }
        s
    }

    /// Insert the block row, or keep the existing row when its slot was
    /// already seen: block facts are immutable once stored.
    pub fn upsert_block(&mut self, block: Block)
        requires
            old(self).wf(),
        ensures
            final(self).wf(),
            final(self)@.blocks == spec_upsert_block(old(self)@.blocks, block@),
            final(self)@.transactions == old(self)@.transactions,
            final(self)@.campaign_events == old(self)@.campaign_events,
    {
        let ghost rows = self.blocks_rows();
        let mut i: usize = 0;
        while i < self.blocks.len()
            invariant
                0 <= i <= self.blocks.len(),
                *self == *old(self),
                old(self).wf(),
                rows == self.blocks_rows(),
                forall|j: int| 0 <= j < i ==> rows[j].slot != block.slot,
            decreases self.blocks.len() - i,
        {
            proof {
                assert(rows[i as int] == self.blocks@[i as int]@);
            }
            if self.blocks[i].slot == block.slot {
                proof {
                    lemma_blocks_map_contains(rows, block.slot);
                }
                return ;
            }
            i = i + 1;
        }
        proof {
            lemma_blocks_map_contains(rows, block.slot);
        }
        self.blocks.push(block);
        proof {
            assert(self.blocks_rows() =~= rows.push(block@));
            lemma_blocks_map_push(rows, block@);
            assert(self.transactions_rows() =~= old(self).transactions_rows());
            assert(self.events_rows() =~= old(self).events_rows());
            assert forall|a: int, b: int|
                0 <= a < b < self.blocks@.len() implies self.blocks@[a].slot
                != self.blocks@[b].slot by {
                if b < self.blocks@.len() - 1 {
                    assert(self.blocks@[a] == old(self).blocks@[a]);
                    assert(self.blocks@[b] == old(self).blocks@[b]);
                } else {
                    assert(self.blocks@[a] == old(self).blocks@[a]);
                    assert(rows[a] == old(self).blocks@[a]@);
                }
            }
        }
    }

    /// Insert the transaction row, or overwrite the row already holding its
    /// signature with the latest observed values.
    pub fn upsert_transaction(&mut self, tx: Transaction)
        requires
            old(self).wf(),
        ensures
            final(self).wf(),
            final(self)@.transactions == spec_upsert_transaction(old(self)@.transactions, tx@),
            final(self)@.blocks == old(self)@.blocks,
            final(self)@.campaign_events == old(self)@.campaign_events,
    {
        let ghost rows = self.transactions_rows();
        let mut i: usize = 0;
        while i < self.transactions.len()
            invariant
                0 <= i <= self.transactions.len(),
                *self == *old(self),
                old(self).wf(),
                rows == self.transactions_rows(),
                forall|j: int| 0 <= j < i ==> rows[j].signature != tx.signature@,
            decreases self.transactions.len() - i,
        {
            proof {
                assert(rows[i as int] == self.transactions@[i as int]@);
            }
            if self.transactions[i].signature == tx.signature {
                let ghost t = tx@;
                self.transactions.set(i, tx);
                proof {
                    assert(self.transactions_rows() =~= rows.update(i as int, t));
                    assert forall|a: int, b: int|
                        0 <= a < b < rows.len() implies rows[a].signature
                        != rows[b].signature by {
                        assert(rows[a] == old(self).transactions@[a]@);
                        assert(rows[b] == old(self).transactions@[b]@);
                    }
                    lemma_transactions_map_update(rows, i as int, t);
                    assert(self.blocks_rows() =~= old(self).blocks_rows());
                    assert(self.events_rows() =~= old(self).events_rows());
                    assert forall|a: int, b: int|
                        0 <= a < b < self.transactions@.len() implies self.transactions@[a].signature@
                        != self.transactions@[b].signature@ by {
                        assert(rows[a].signature == self.transactions@[a].signature@);
                        assert(rows[b].signature == self.transactions@[b].signature@);
                    }
                }
                return ;
            }
            i = i + 1;
        }
        self.transactions.push(tx);
        proof {
            assert(self.transactions_rows() =~= rows.push(tx@));
            lemma_transactions_map_push(rows, tx@);
            assert(self.blocks_rows() =~= old(self).blocks_rows());
            assert(self.events_rows() =~= old(self).events_rows());
            assert forall|a: int, b: int|
                0 <= a < b < self.transactions@.len() implies self.transactions@[a].signature@
                != self.transactions@[b].signature@ by {
                if b < self.transactions@.len() - 1 {
                    assert(self.transactions@[a] == old(self).transactions@[a]);
                    assert(self.transactions@[b] == old(self).transactions@[b]);
                } else {
                    assert(self.transactions@[a] == old(self).transactions@[a]);
                    assert(rows[a] == old(self).transactions@[a]@);
                }
            }
        }
    }

    /// Append the event row. No conflict handling: duplicate decodes for the
    /// same signature are accepted as distinct rows.
    pub fn insert_campaign_event(&mut self, row: CampaignEventRow)
        requires
            old(self).wf(),
        ensures
            final(self).wf(),
            final(self)@.campaign_events == old(self)@.campaign_events.push(row@),
            final(self)@.blocks == old(self)@.blocks,
            final(self)@.transactions == old(self)@.transactions,
    {
        let ghost r = row@;
        self.campaign_events.push(row);
        proof {
            assert(self.events_rows() =~= old(self).events_rows().push(r));
            assert(self.blocks_rows() =~= old(self).blocks_rows());
            assert(self.transactions_rows() =~= old(self).transactions_rows());
        }
    }

    /// Look a block up by slot.
    pub fn get_block(&self, slot: u64) -> (r: Option<&Block>)
        requires
            self.wf(),
        ensures
            match r {
                Some(b) => self@.blocks.contains_key(slot) && b@ == self@.blocks[slot],
                None => !self@.blocks.contains_key(slot),
            },
    {
        let ghost rows = self.blocks_rows();
        let mut i: usize = 0;
        while i < self.blocks.len()
            invariant
                0 <= i <= self.blocks.len(),
                rows == self.blocks_rows(),
                self.wf(),
                forall|j: int| 0 <= j < i ==> rows[j].slot != slot,
            decreases self.blocks.len() - i,
        {
            proof {
                assert(rows[i as int] == self.blocks@[i as int]@);
            }
            if self.blocks[i].slot == slot {
                proof {
                    lemma_blocks_map_index(rows, i as int);
                }
                return Some(&self.blocks[i]);
            }
            i = i + 1;
        }
        proof {
            lemma_blocks_map_contains(rows, slot);
        }
        None
    }

    /// Look a transaction up by signature.
    pub fn get_transaction(&self, signature: &String) -> (r: Option<&Transaction>)
        requires
            self.wf(),
        ensures
            match r {
                Some(t) => self@.transactions.contains_key(signature@) && t@
                    == self@.transactions[signature@],
                None => !self@.transactions.contains_key(signature@),
            },
    {
        let ghost rows = self.transactions_rows();
        let mut i: usize = 0;
        while i < self.transactions.len()
            invariant
                0 <= i <= self.transactions.len(),
                rows == self.transactions_rows(),
                self.wf(),
                forall|j: int| 0 <= j < i ==> rows[j].signature != signature@,
            decreases self.transactions.len() - i,
        {
            proof {
                assert(rows[i as int] == self.transactions@[i as int]@);
            }
            if self.transactions[i].signature == *signature {
                proof {
                    lemma_transactions_map_index(rows, i as int);
                }
                return Some(&self.transactions[i]);
            }
            i = i + 1;
        }
        proof {
            lemma_transactions_map_contains(rows, signature@);
        }
        None
    }

    /// How many distinct blocks are stored.
    pub fn block_count(&self) -> (n: usize)
        requires
            self.wf(),
        ensures
            n == self@.blocks.len(),
    {
        proof {
            lemma_blocks_map_len(self.blocks_rows());
        }
        self.blocks.len()
    }

    /// How many distinct transactions are stored.
    pub fn transaction_count(&self) -> (n: usize)
        requires
            self.wf(),
        ensures
            n == self@.transactions.len(),
    {
        proof {
            lemma_transactions_map_len(self.transactions_rows());
        }
        self.transactions.len()
    }

    /// How many event rows are stored.
    pub fn campaign_event_count(&self) -> (n: usize)
        ensures
            n == self@.campaign_events.len(),
    {
        self.campaign_events.len()
    }

    /// The event row at a position of the append-only run.
    pub fn campaign_event_at(&self, i: usize) -> (r: &CampaignEventRow)
        requires
            i < self@.campaign_events.len(),
        ensures
            r@ == self@.campaign_events[i as int],
    {
        &self.campaign_events[i]
    }

    /// The highest stored block slot, from which an unconfigured pipeline
    /// resumes; nothing when the store is empty.
    pub fn max_block_slot(&self) -> (r: Option<u64>)
        requires
            self.wf(),
        ensures
            match r {
                Some(m) => self@.blocks.contains_key(m) && forall|s: u64|
                    self@.blocks.contains_key(s) ==> s <= m,
                None => forall|s: u64| !self@.blocks.contains_key(s),
            },
    {
        let ghost rows = self.blocks_rows();
        if self.blocks.len() == 0 {
            proof {
                assert forall|s: u64| !self@.blocks.contains_key(s) by {
                    lemma_blocks_map_contains(rows, s);
                }
            }
            return None;
        }
        let mut best: u64 = self.blocks[0].slot;
        let mut i: usize = 1;
        proof {
            assert(rows[0] == self.blocks@[0]@);
        }
        while i < self.blocks.len()
            invariant
                1 <= i <= self.blocks.len(),
                rows == self.blocks_rows(),
                self.wf(),
                exists|j: int| 0 <= j < i && rows[j].slot == best,
                forall|j: int| 0 <= j < i ==> rows[j].slot <= best,
            decreases self.blocks.len() - i,
        {
            proof {
                assert(rows[i as int] == self.blocks@[i as int]@);
            }
            if self.blocks[i].slot > best {
                best = self.blocks[i].slot;
            }
            i = i + 1;
        }
        proof {
            lemma_blocks_map_contains(rows, best);
            assert forall|s: u64| self@.blocks.contains_key(s) implies s <= best by {
                lemma_blocks_map_contains(rows, s);
            }
        }
        Some(best)
    }
}

/// With distinct signatures, the map has one entry per row.
proof fn lemma_transactions_map_len(rows: Seq<TransactionView>)
    requires
        forall|a: int, b: int|
            0 <= a < b < rows.len() ==> rows[a].signature != rows[b].signature,
    ensures
        transactions_as_map(rows).dom().finite(),
        transactions_as_map(rows).len() == rows.len(),
    decreases rows.len(),
{
    if rows.len() > 0 {
        assert(forall|j: int| 0 <= j < rows.len() - 1 ==> rows.drop_last()[j] == rows[j]);
        lemma_transactions_map_len(rows.drop_last());
        lemma_transactions_map_contains(rows.drop_last(), rows.last().signature);
    }
}

/// Law: block facts are immutable once seen. Writing the same slot twice, with
/// whatever row contents, leaves exactly the state after the first write —
/// the first writer wins and the second write is a no-op.
pub proof fn lemma_upsert_block_idempotent(m: Map<u64, BlockView>, b1: BlockView, b2: BlockView)
    requires
        b1.slot == b2.slot,
    ensures
        spec_upsert_block(spec_upsert_block(m, b1), b2) == spec_upsert_block(m, b1),
{
}

/// Law: transaction writes are last-write-wins. Writing the same signature
/// twice leaves exactly the state of one write of the second row.
pub proof fn lemma_upsert_transaction_last_write_wins(
    m: Map<Seq<char>, TransactionView>,
    t1: TransactionView,
    t2: TransactionView,
)
    requires
        t1.signature == t2.signature,
    ensures
        spec_upsert_transaction(spec_upsert_transaction(m, t1), t2) == spec_upsert_transaction(
            m,
            t2,
        ),
{
    assert(spec_upsert_transaction(spec_upsert_transaction(m, t1), t2) =~= spec_upsert_transaction(
        m,
        t2,
    ));
}

} // verus!
