//! The consumer side of the pipeline: counting examined wallets, emitting a
//! progress tick every thousand, reporting each match together with the
//! number of wallets examined since the previous one, and resetting the
//! counter afterwards.
use vstd::prelude::*;
use crate::selector::{Selector, selector_matches, addr_len};
use crate::wallet::Wallet;

verus! {

/// How many wallets are examined between two progress ticks.
pub open spec fn progress_interval() -> int {
    1000
}

/// What handling one wallet does to the consumer's running counter.
pub struct StepOutcome {
    /// Wallets examined since the last match, this one included.
    pub examined: u32,
    /// Whether a progress tick is due after this wallet.
    pub progress_tick: bool,
    /// The counter to carry to the next wallet.
    pub new_count: u32,
}

/// Advances the consumer's counter over one wallet: the wallet is counted,
/// a progress tick is due after every thousandth wallet, and a match resets
/// the counter to zero.
pub fn consume_step(count: u32, is_match: bool) -> (r: StepOutcome)
    requires
        count < u32::MAX,
    ensures
        r.examined == count + 1,
        r.progress_tick == ((count + 1) as int % progress_interval() == 0),
        r.new_count == if is_match {
            0u32
        } else {
            (count + 1) as u32
        },
{
    let examined = count + 1;
    StepOutcome {
        examined,
        progress_tick: examined % 1000 == 0,
        new_count: if is_match {
            0
        } else {
            examined
        },
    }
}

/// One reported match: the position of the wallet in the examined sequence
/// and the number of wallets examined since the previous match, this one
/// included.
pub struct MatchReport {
    pub index: usize,
    pub count: u32,
}

/// The outcome of draining a wallet sequence: every match in order, and the
/// counter value accumulated since the last match (or since the start) for
/// the final summary.
pub struct ProcessReport {
    pub matches: Vec<MatchReport>,
    pub final_count: u32,
}

/// The matches the consumer reports from position `i` on, given the counter
/// accumulated so far: each as its absolute position and the counter value
/// at the moment of the report.
pub open spec fn reports_from(sel: Selector, ws: Seq<Wallet>, i: int, count: int) -> Seq<
    (int, int),
>
    decreases ws.len() - i when 0 <= i <= ws.len()
{
    if i >= ws.len() {
        Seq::empty()
    } else if selector_matches(sel, ws[i].address@) {
        seq![(i, count + 1)] + reports_from(sel, ws, i + 1, 0)
    } else {
        reports_from(sel, ws, i + 1, count + 1)
    }
}

/// The counter left over for the final summary after position `i` on.
pub open spec fn final_count_from(sel: Selector, ws: Seq<Wallet>, i: int, count: int) -> int
    decreases ws.len() - i when 0 <= i <= ws.len()
{
    if i >= ws.len() {
        count
    } else if selector_matches(sel, ws[i].address@) {
        final_count_from(sel, ws, i + 1, 0)
    } else {
        final_count_from(sel, ws, i + 1, count + 1)
    }
}

/// The index/count pairs a list of match reports stands for.
pub open spec fn report_pairs(ms: Seq<MatchReport>) -> Seq<(int, int)> {
    ms.map(|k: int, m: MatchReport| (m.index as int, m.count as int))
}

/// Drains a finished sequence of wallets through the selector, exactly as
/// the consumer loop does: wallets are examined in order, each match is
/// reported with the count since the previous match, and the count left at
/// the end feeds the final summary.  A run with no matches is not an error.
pub fn process_wallets(wallets: &Vec<Wallet>, selector: &Selector) -> (r: ProcessReport)
    requires
        wallets@.len() < u32::MAX,
        forall|i: int| 0 <= i < wallets@.len() ==> (#[trigger] wallets@[i].address)@.len()
            == addr_len(),
    ensures
        report_pairs(r.matches@) == reports_from(*selector, wallets@, 0, 0),
        r.final_count == final_count_from(*selector, wallets@, 0, 0),
{
    let mut matches: Vec<MatchReport> = Vec::new();
    let mut count: u32 = 0;
    let mut i: usize = 0;
    while i < wallets.len()
        invariant
            0 <= i <= wallets@.len(),
            wallets@.len() < u32::MAX,
            count <= i,
            forall|k: int| 0 <= k < wallets@.len() ==> (#[trigger] wallets@[k].address)@.len()
                == addr_len(),
            reports_from(*selector, wallets@, 0, 0) == report_pairs(matches@) + reports_from(
                *selector,
                wallets@,
                i as int,
                count as int,
            ),
            final_count_from(*selector, wallets@, 0, 0) == final_count_from(
                *selector,
                wallets@,
                i as int,
                count as int,
            ),
        decreases wallets@.len() - i,
    {
        let ghost pre_matches = matches@;
        let is_match = selector.matches(&wallets[i]);
        let step = consume_step(count, is_match);
        if is_match {
            matches.push(MatchReport { index: i, count: step.examined });
            proof {
                assert(report_pairs(matches@) =~= report_pairs(pre_matches) + seq![
                    (i as int, count + 1),
                ]);
                assert(report_pairs(pre_matches) + (seq![(i as int, count + 1)] + reports_from(
                    *selector,
                    wallets@,
                    i + 1,
                    0,
                )) =~= report_pairs(matches@) + reports_from(*selector, wallets@, i + 1, 0));
            }
        }
        count = step.new_count;
        i += 1;
    }
    ProcessReport { matches, final_count: count }
}

} // verus!
