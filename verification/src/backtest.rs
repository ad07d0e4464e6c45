//! Event ingestion: block ranges, raw-event normalization, and dataset
//! export.
//!
//! The ledger itself is an external collaborator: the caller fetches the raw
//! swap events of a contract over a block range and hands them here together
//! with the last block the ledger could actually serve. Everything that
//! decides — range validation, coverage checking, filtering, normalization,
//! ordering — is verified below.

use vstd::prelude::*;
use crate::amm::TradeRecord;
use crate::errors::SimError;

verus! {

/// An inclusive range of ledger block numbers.
#[derive(Clone, Copy, Debug, PartialEq, Eq, Structural)]
pub struct BlockRange {
    /// First block of the range.
    pub start_block: u64,
    /// Last block of the range, inclusive.
    pub end_block: u64,
}

impl BlockRange {
    /// Invariant: the range runs forward.
    pub open spec fn wf(self) -> bool {
        self.start_block <= self.end_block
    }

    /// Whether block `b` lies inside the range.
    pub open spec fn spec_contains(self, b: u64) -> bool {
        self.start_block <= b <= self.end_block
    }

    /// Validates a range. A start above the end is rejected as
    /// `InvalidConfig` before any ledger query is made.
    pub fn new(start_block: u64, end_block: u64) -> (r: Result<BlockRange, SimError>)
        ensures
            r is Ok <==> start_block <= end_block,
            r matches Ok(b) ==> b == (BlockRange { start_block, end_block }) && b.wf(),
            r is Err ==> r->Err_0 == SimError::InvalidConfig,
    {
        if start_block <= end_block {
            Ok(BlockRange { start_block, end_block })
        } else {
            Err(SimError::InvalidConfig)
        }
    }

    /// Tests whether block `b` lies inside the range.
    pub fn contains(&self, b: u64) -> (r: bool)
        ensures
            r == self.spec_contains(b),
    {
        self.start_block <= b && b <= self.end_block
    }
}

/// One raw swap event as the ledger reports it, already decoded to plain
/// values: position in the chain, swap amounts, and the post-swap price.
#[derive(Clone, Copy, Debug, PartialEq, Eq, Structural)]
pub struct RawSwapEvent {
    /// Block the event was emitted in.
    pub block_number: u64,
    /// Position of the event's log within its block.
    pub log_index: u64,
    /// Amount paid into the pool.
    pub amount_in: u64,
    /// Amount paid out of the pool.
    pub amount_out: u64,
    /// Asset tag of the token paid in.
    pub asset_in: u64,
    /// Asset tag of the token paid out.
    pub asset_out: u64,
    /// Fixed-point pool price after the swap.
    pub price: u64,
}

/// Normalization: a raw event becomes a trade record keyed by its block.
pub open spec fn spec_normalize(e: RawSwapEvent) -> TradeRecord {
    TradeRecord {
        block_or_step: e.block_number,
        amount_in: e.amount_in,
        amount_out: e.amount_out,
        asset_in: e.asset_in,
        asset_out: e.asset_out,
        resulting_price: e.price,
    }
}

/// Normalizes one raw swap event into the common record schema.
pub fn normalize_event(e: &RawSwapEvent) -> (t: TradeRecord)
    ensures
        t == spec_normalize(*e),
{
    TradeRecord {
        block_or_step: e.block_number,
        amount_in: e.amount_in,
        amount_out: e.amount_out,
        asset_in: e.asset_in,
        asset_out: e.asset_out,
        resulting_price: e.price,
    }
}

/// An ordered dataset of trade records: created at export time, immutable
/// afterward, loaded fully into memory by an import.
#[derive(Debug)]
pub struct BacktestDataset {
    /// The normalized records, in on-chain order.
    pub records: Vec<TradeRecord>,
}

/// The export of a range: the events inside the range, in their reported
/// order, each normalized.
pub open spec fn spec_export(events: Seq<RawSwapEvent>, r: BlockRange) -> Seq<TradeRecord>
    decreases events.len(),
{
    if events.len() == 0 {
        Seq::<TradeRecord>::empty()
    } else {
        let head = spec_export(events.drop_last(), r);
        if r.spec_contains(events.last().block_number) {
            head.push(spec_normalize(events.last()))
        } else {
            head
        }
    }
}

/// Whether the events run in on-chain order: block number first, then
/// intra-block log index.
pub open spec fn spec_chain_ordered(events: Seq<RawSwapEvent>) -> bool {
    forall|i: int, j: int|
        0 <= i < j < events.len() ==> (events[i].block_number < events[j].block_number || (
        events[i].block_number == events[j].block_number && events[i].log_index
            <= events[j].log_index))
}

/// Builds the dataset of a block range from the raw events the ledger
/// returned and the last block it could serve.
///
/// Fails with `RangeUnavailable`, reporting that last served block, whenever
/// the ledger could not cover the whole range: a partial result is never
/// returned as if it were complete.
pub fn export_dataset(range: &BlockRange, events: &Vec<RawSwapEvent>, last_served_block: u64) -> (r:
    Result<BacktestDataset, SimError>)
    requires
        range.wf(),
    ensures
        r is Ok <==> last_served_block >= range.end_block,
        r matches Ok(d) ==> d.records@ == spec_export(events@, *range),
        r is Err ==> r->Err_0 == (SimError::RangeUnavailable {
            last_good_block: last_served_block,
        }),
{
    if last_served_block < range.end_block {
        return Err(SimError::RangeUnavailable { last_good_block: last_served_block });
    }
    let mut out: Vec<TradeRecord> = Vec::new();
    let mut i: usize = 0;
    while i < events.len()
        invariant
            i <= events@.len(),
            out@ == spec_export(events@.take(i as int), *range),
        decreases events@.len() - i,
    {
        proof {
            assert(events@.take(i + 1).drop_last() =~= events@.take(i as int));
            assert(events@.take(i + 1).last() == events@[i as int]);
        }
        let e = events[i];
        if range.contains(e.block_number) {
            out.push(normalize_event(&e));
        }
        i = i + 1;
    }
    proof {
        assert(events@.take(events@.len() as int) =~= events@);
    }
    Ok(BacktestDataset { records: out })
}

/// Law: every exported record lies inside the requested range; with
/// `start_block == end_block`, only events of that single block appear.
pub proof fn lemma_export_in_range(events: Seq<RawSwapEvent>, r: BlockRange)
    ensures
        forall|k: int|
            0 <= k < spec_export(events, r).len() ==> r.start_block <= #[trigger] spec_export(
                events,
                r,
            )[k].block_or_step <= r.end_block,
    decreases events.len(),
{
    if events.len() == 0 {
    } else {
        lemma_export_in_range(events.drop_last(), r);
        let head = spec_export(events.drop_last(), r);
        let full = spec_export(events, r);
        assert forall|k: int| 0 <= k < full.len() implies r.start_block
            <= #[trigger] full[k].block_or_step <= r.end_block by {
            if k < head.len() {
                assert(full[k] == head[k]);
            } else {
                assert(r.spec_contains(events.last().block_number));
                assert(full[k] == spec_normalize(events.last()));
            }
        }
    }
}

/// Law: an export preserves on-chain ordering. When the ledger reports the
/// events in block-then-log order, the exported records carry non-decreasing
/// block numbers.
pub proof fn lemma_export_ordered(events: Seq<RawSwapEvent>, r: BlockRange)
    requires
        spec_chain_ordered(events),
    ensures
        forall|i: int, j: int|
            0 <= i < j < spec_export(events, r).len() ==> #[trigger] spec_export(
                events,
                r,
            )[i].block_or_step <= #[trigger] spec_export(events, r)[j].block_or_step,
    decreases events.len(),
{
    if events.len() == 0 {
    } else {
        assert(spec_chain_ordered(events.drop_last())) by {
            assert(forall|i: int, j: int|
                0 <= i < j < events.drop_last().len() ==> events.drop_last()[i] == events[i]
                    && events.drop_last()[j] == events[j]);
        }
        lemma_export_ordered(events.drop_last(), r);
        lemma_export_comes_from(events.drop_last(), r);
        let head = spec_export(events.drop_last(), r);
        let full = spec_export(events, r);
        assert forall|i: int, j: int| 0 <= i < j < full.len() implies #[trigger] full[i].block_or_step
            <= #[trigger] full[j].block_or_step by {
            if j < head.len() {
                assert(full[i] == head[i] && full[j] == head[j]);
            } else {
                assert(r.spec_contains(events.last().block_number));
                assert(full[j] == spec_normalize(events.last()));
                assert(full[i] == head[i]);
                let m = choose|m: int|
                    0 <= m < events.drop_last().len() && head[i] == spec_normalize(
                        events.drop_last()[m],
                    );
                assert(events.drop_last()[m] == events[m]);
                assert(events[m].block_number <= events[events.len() - 1].block_number);
                assert(events.last() == events[events.len() - 1]);
            }
        }
    }
}

/// Every exported record is the normalization of some event of the input.
pub proof fn lemma_export_comes_from(events: Seq<RawSwapEvent>, r: BlockRange)
    ensures
        forall|k: int|
            0 <= k < spec_export(events, r).len() ==> exists|m: int|
                0 <= m < events.len() && #[trigger] spec_export(events, r)[k] == spec_normalize(
                    events[m],
                ),
    decreases events.len(),
{
    if events.len() == 0 {
    } else {
        lemma_export_comes_from(events.drop_last(), r);
        let head = spec_export(events.drop_last(), r);
        let full = spec_export(events, r);
        assert forall|k: int| 0 <= k < full.len() implies exists|m: int|
            0 <= m < events.len() && #[trigger] full[k] == spec_normalize(events[m]) by {
            if k < head.len() {
                assert(full[k] == head[k]);
                let m = choose|m: int|
                    0 <= m < events.drop_last().len() && head[k] == spec_normalize(
                        events.drop_last()[m],
                    );
                assert(events.drop_last()[m] == events[m]);
                assert(0 <= m < events.len() && full[k] == spec_normalize(events[m]));
            } else {
                assert(full[k] == spec_normalize(events.last()));
                assert(events.last() == events[events.len() - 1]);
                assert(0 <= events.len() - 1 < events.len() && full[k] == spec_normalize(
                    events[events.len() - 1],
                ));
            }
        }
    }
}

} // verus!
