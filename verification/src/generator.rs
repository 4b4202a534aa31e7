//! The producer side of the pipeline: the cancellable source of random seed
//! phrases, and the state of the token pool that caps concurrent
//! derivations at the configured worker count.
//!
//! The pool state is the protocol every run follows: a token is checked out
//! before a derivation starts and returned when it finishes, whether the
//! wallet was delivered or the candidate was dropped; the cancellation flag
//! is consulted once per candidate, before it is generated.
use vstd::prelude::*;
use vstd::multiset::Multiset;
use core::sync::atomic::{AtomicBool, Ordering};
use std::sync::Arc;
use std::io::Write;
use crate::wallet::derived_address;

verus! {

/// The cancellable source of fresh random seed phrases.  It consults the
/// shared cancellation flag before producing each phrase; once the flag
/// reads stopped, or once drawing entropy fails, it yields nothing more.
pub struct MnemonicGeneator {
    running: Arc<AtomicBool>,
}

/// A twelve-word seed phrase in its canonical spelling: exactly eleven
/// single spaces, each separating two nonempty words, none at either end.
pub open spec fn is_twelve_word_phrase(s: Seq<char>) -> bool {
    &&& s.filter(|c: char| c == ' ').len() == 11
    &&& s.len() > 0
    &&& s[0] != ' '
    &&& s[s.len() - 1] != ' '
    &&& forall|i: int| 0 < i < s.len() ==> !(#[trigger] s[i] == ' ' && s[i - 1] == ' ')
}

/// Relies on `coins_bip39::Mnemonic::new_with_count` over `rand::thread_rng`
/// and `Mnemonic::to_phrase`: the phrase is drawn from fresh entropy, so
/// which phrase comes out is not promised; whatever comes out joins twelve
/// nonempty wordlist words with single spaces.  An entropy failure is
/// reported on the diagnostic stream and yields `None`.
#[verifier::external_body]
fn random_phrase() -> (r: Option<String>)
    ensures
        r matches Some(p) ==> is_twelve_word_phrase(p@),
{
    match ethers_signers::coins_bip39::Mnemonic::<ethers_signers::coins_bip39::English>::new_with_count(
        &mut rand::thread_rng(),
        12,
    ) {
        Ok(m) => Some(m.to_phrase()),
        Err(e) => {
            let _ = writeln!(&mut std::io::stderr(), "Error generating mnemonic: {:?}", e);
            None
        },
    }
}

impl MnemonicGeneator {
    /// A source observing the given shared cancellation flag.
    pub fn new(running: Arc<AtomicBool>) -> MnemonicGeneator {
        MnemonicGeneator { running }
    }

    /// The next candidate seed phrase: `None` once the flag reads stopped
    /// or once phrase generation fails, so the sequence ends there; every
    /// phrase produced is a twelve-word mnemonic phrase.  The flag's value
    /// itself cannot appear in this contract — the atomic it sits behind
    /// carries no specification view — so the cancellation behaviour is
    /// stated over the pool model below instead.
    pub fn next(&mut self) -> (r: Option<String>)
        ensures
            r matches Some(p) ==> is_twelve_word_phrase(p@),
    {
        if !self.running.load(Ordering::Relaxed) {
            return None;
        }
        random_phrase()
    }
}

/// The state of the worker pool's admission control: a pool of
/// `workers` tokens, each standing for the right to run one concurrent
/// derivation, together with the cancellation flag's value and the
/// accounting of every candidate that entered the pool.
pub struct PoolState {
    /// The configured parallelism; constant for the pool's lifetime.
    pub workers: u64,
    /// Tokens currently in the pool, available for dispatch.
    pub free_tokens: u64,
    /// Tokens checked out: derivations currently in flight.
    pub in_flight: u64,
    /// The cancellation flag: true until the stop signal arrives.
    pub running: bool,
    /// Candidates dispatched to a worker so far.
    pub dispatched: u64,
    /// Wallets delivered to the result channel so far.
    pub delivered: u64,
    /// Wallets the consumer has received from the result channel so far.
    pub consumed: u64,
    /// Candidates dropped by a failed derivation so far.
    pub dropped: u64,
}

/// One step of the pool's protocol.
pub enum PoolEvent {
    /// A token is paired with a fresh candidate and a derivation starts.
    Dispatch,
    /// An in-flight derivation succeeds, its wallet is delivered, and its
    /// token returns to the pool.
    FinishDelivered,
    /// An in-flight derivation fails, the candidate is dropped, and its
    /// token returns to the pool.
    FinishDropped,
    /// The consumer receives one wallet from the result channel.
    Consume,
    /// The stop signal arrives; it only clears the flag.
    Stop,
}

impl PoolState {
    /// The pool's invariant: tokens in circulation are constant (free plus
    /// checked-out equals the configured parallelism), every candidate
    /// that entered the pool is delivered, dropped, or still in flight,
    /// and the result channel never holds more than its bounded capacity
    /// of one slot per worker plus one buffer slot.
    pub open spec fn inv(self) -> bool {
        &&& self.workers >= 1
        &&& self.free_tokens + self.in_flight == self.workers
        &&& self.dispatched == self.delivered + self.dropped + self.in_flight
        &&& self.consumed <= self.delivered
        &&& self.queued() <= self.workers + 1
    }

    /// Wallets sitting in the result channel: delivered by a worker, not
    /// yet received by the consumer.
    pub open spec fn queued(self) -> int {
        self.delivered - self.consumed
    }

    /// A fresh candidate may be dispatched only while the flag is running
    /// and a token is free.
    pub open spec fn can_dispatch(self) -> bool {
        &&& self.running
        &&& self.free_tokens > 0
        &&& self.dispatched < u64::MAX
    }

    /// An in-flight derivation can finish while one is outstanding and the
    /// respective counter has room.
    pub open spec fn can_finish(self) -> bool {
        &&& self.in_flight > 0
        &&& self.free_tokens < u64::MAX
        &&& self.delivered < u64::MAX
        &&& self.dropped < u64::MAX
    }

    /// A finishing worker can hand its wallet to the result channel only
    /// while the channel has room: this is the back-pressure that briefly
    /// blocks a send when the bounded buffer is momentarily full.
    pub open spec fn can_send(self) -> bool {
        self.queued() < self.workers + 1
    }

    /// The consumer can receive while a wallet is queued.
    pub open spec fn can_consume(self) -> bool {
        &&& self.queued() > 0
        &&& self.consumed < u64::MAX
    }

    /// The pool of a fresh run: all tokens free, nothing dispatched, the
    /// flag running.
    pub fn new(workers: u64) -> (s: PoolState)
        requires
            workers >= 1,
        ensures
            s.inv(),
            s.workers == workers,
            s.free_tokens == workers,
            s.in_flight == 0,
            s.running,
            s.dispatched == 0,
            s.delivered == 0,
            s.consumed == 0,
            s.dropped == 0,
    {
        PoolState {
            workers,
            free_tokens: workers,
            in_flight: 0,
            running: true,
            dispatched: 0,
            delivered: 0,
            consumed: 0,
            dropped: 0,
        }
    }

    /// Checks a token out of the pool and pairs it with a fresh candidate.
    pub fn dispatch(&mut self)
        requires
            old(self).inv(),
            old(self).can_dispatch(),
        ensures
            final(self).inv(),
            *final(self) == step(*old(self), PoolEvent::Dispatch),
            final(self).in_flight == old(self).in_flight + 1,
            final(self).dispatched == old(self).dispatched + 1,
            final(self).in_flight <= final(self).workers,
    {
        self.free_tokens = self.free_tokens - 1;
        self.in_flight = self.in_flight + 1;
        self.dispatched = self.dispatched + 1;
    }

    /// Returns an in-flight derivation's token to the pool, counting its
    /// wallet as delivered or its candidate as dropped — never both.  A
    /// delivery needs room in the result channel.
    pub fn finish(&mut self, delivered: bool)
        requires
            old(self).inv(),
            old(self).can_finish(),
            delivered ==> old(self).can_send(),
        ensures
            final(self).inv(),
            *final(self) == step(
                *old(self),
                if delivered {
                    PoolEvent::FinishDelivered
                } else {
                    PoolEvent::FinishDropped
                },
            ),
            final(self).in_flight == old(self).in_flight - 1,
            final(self).delivered == old(self).delivered + if delivered {
                1int
            } else {
                0int
            },
            final(self).dropped == old(self).dropped + if delivered {
                0int
            } else {
                1int
            },
    {
        self.free_tokens = self.free_tokens + 1;
        self.in_flight = self.in_flight - 1;
        if delivered {
            self.delivered = self.delivered + 1;
        } else {
            self.dropped = self.dropped + 1;
        }
    }

    /// Receives one wallet from the result channel, freeing its slot.
    pub fn consume(&mut self)
        requires
            old(self).inv(),
            old(self).can_consume(),
        ensures
            final(self).inv(),
            *final(self) == step(*old(self), PoolEvent::Consume),
            final(self).consumed == old(self).consumed + 1,
            final(self).delivered == old(self).delivered,
            final(self).queued() == old(self).queued() - 1,
    {
        self.consumed = self.consumed + 1;
    }

    /// Records the stop signal: it clears the flag and nothing else, and a
    /// repeated signal changes nothing.
    pub fn stop(&mut self)
        requires
            old(self).inv(),
        ensures
            final(self).inv(),
            *final(self) == step(*old(self), PoolEvent::Stop),
            !final(self).running,
            final(self).in_flight == old(self).in_flight,
            final(self).dispatched == old(self).dispatched,
            final(self).delivered == old(self).delivered,
            final(self).dropped == old(self).dropped,
    {
        self.running = false;
    }
}

/// The pool's transition function: an event that is not enabled leaves the
/// state unchanged.
pub open spec fn step(s: PoolState, e: PoolEvent) -> PoolState {
    match e {
        PoolEvent::Dispatch => if s.can_dispatch() {
            PoolState {
                free_tokens: (s.free_tokens - 1) as u64,
                in_flight: (s.in_flight + 1) as u64,
                dispatched: (s.dispatched + 1) as u64,
                ..s
            }
        } else {
            s
        },
        PoolEvent::FinishDelivered => if s.can_finish() && s.can_send() {
            PoolState {
                free_tokens: (s.free_tokens + 1) as u64,
                in_flight: (s.in_flight - 1) as u64,
                delivered: (s.delivered + 1) as u64,
                ..s
            }
        } else {
            s
        },
        PoolEvent::FinishDropped => if s.can_finish() {
            PoolState {
                free_tokens: (s.free_tokens + 1) as u64,
                in_flight: (s.in_flight - 1) as u64,
                dropped: (s.dropped + 1) as u64,
                ..s
            }
        } else {
            s
        },
        PoolEvent::Consume => if s.can_consume() {
            PoolState { consumed: (s.consumed + 1) as u64, ..s }
        } else {
            s
        },
        PoolEvent::Stop => PoolState { running: false, ..s },
    }
}

/// The state after a whole sequence of events.
pub open spec fn run(s: PoolState, es: Seq<PoolEvent>) -> PoolState
    decreases es.len(),
{
    if es.len() == 0 {
        s
    } else {
        run(step(s, es[0]), es.drop_first())
    }
}

/// Every step of the protocol preserves the pool's invariant.
pub proof fn lemma_step_preserves_inv(s: PoolState, e: PoolEvent)
    requires
        s.inv(),
    ensures
        step(s, e).inv(),
{
}

/// The invariant holds after any sequence of events.
pub proof fn lemma_run_preserves_inv(s: PoolState, es: Seq<PoolEvent>)
    requires
        s.inv(),
    ensures
        run(s, es).inv(),
    decreases es.len(),
{
    if es.len() > 0 {
        lemma_step_preserves_inv(s, es[0]);
        lemma_run_preserves_inv(step(s, es[0]), es.drop_first());
    }
}

/// The number of derivations in flight never exceeds the configured worker
/// count.
pub proof fn lemma_in_flight_bounded(s: PoolState)
    requires
        s.inv(),
    ensures
        s.in_flight <= s.workers,
{
}

/// The result channel's occupancy never exceeds its bounded capacity of
/// one slot per worker plus one buffer slot, so a finishing worker is
/// never blocked indefinitely handing off its result.
pub proof fn lemma_channel_bounded(s: PoolState)
    requires
        s.inv(),
    ensures
        s.queued() <= s.workers + 1,
{
}

/// Once every in-flight derivation has finished, every candidate that
/// entered the pool was either delivered as a wallet or dropped by a
/// failed derivation — never both, and none lost.
pub proof fn lemma_drained_accounting(s: PoolState)
    requires
        s.inv(),
        s.in_flight == 0,
    ensures
        s.dispatched == s.delivered + s.dropped,
{
}

/// Once the flag reads stopped it stays stopped, and no further candidate
/// is ever dispatched.
pub proof fn lemma_stopped_no_new_candidates(s: PoolState, es: Seq<PoolEvent>)
    requires
        !s.running,
    ensures
        !run(s, es).running,
        run(s, es).dispatched == s.dispatched,
    decreases es.len(),
{
    if es.len() > 0 {
        lemma_stopped_no_new_candidates(step(s, es[0]), es.drop_first());
    }
}

/// After the stop signal, at most the derivations already in flight can
/// still deliver a result: the consumer drains no more than `in_flight`
/// (hence at most `workers`) further wallets.
pub proof fn lemma_stopped_drain_bound(s: PoolState, es: Seq<PoolEvent>)
    requires
        !s.running,
    ensures
        run(s, es).delivered + run(s, es).in_flight <= s.delivered + s.in_flight,
        run(s, es).delivered <= s.delivered + s.in_flight,
    decreases es.len(),
{
    if es.len() > 0 {
        lemma_stopped_drain_bound(step(s, es[0]), es.drop_first());
    }
}

/// The same bound against the configured parallelism: however the run goes
/// on after the stop signal, at most `workers` wallets beyond those already
/// delivered can still reach the consumer.
pub proof fn lemma_stopped_at_most_workers_more(s: PoolState, es: Seq<PoolEvent>)
    requires
        s.inv(),
        !s.running,
    ensures
        run(s, es).delivered <= s.delivered + s.workers,
{
    lemma_stopped_drain_bound(s, es);
    lemma_in_flight_bounded(s);
}

/// The identity-level view of a run: which candidate phrases entered the
/// pool, and what became of each.  It refines the pool's counters with the
/// candidates themselves, so no-loss can be stated per candidate.
pub struct FlowState {
    /// Candidates dispatched and still in flight.
    pub pending: Multiset<Seq<char>>,
    /// Candidates whose wallet was delivered to the result channel.
    pub delivered: Multiset<Seq<char>>,
    /// Candidates dropped by a failed derivation.
    pub dropped: Multiset<Seq<char>>,
}

/// One candidate-level step of the pipeline.
pub enum FlowEvent {
    /// The phrase is paired with a token and its derivation starts.
    Dispatch(Seq<char>),
    /// The phrase's derivation succeeds and its wallet is delivered.
    FinishDelivered(Seq<char>),
    /// The phrase's derivation fails and the candidate is dropped.
    FinishDropped(Seq<char>),
}

/// The start of a run: no candidate anywhere yet.
pub open spec fn flow_init() -> FlowState {
    FlowState {
        pending: Multiset::empty(),
        delivered: Multiset::empty(),
        dropped: Multiset::empty(),
    }
}

/// One candidate's fate: a dispatch adds it to the in-flight candidates; a
/// finish moves it to delivered exactly when derivation succeeds for that
/// phrase, to dropped exactly when it fails.  An event whose candidate is
/// not in flight, or whose outcome contradicts the derivation scheme,
/// changes nothing.
pub open spec fn flow_step(s: FlowState, e: FlowEvent) -> FlowState {
    match e {
        FlowEvent::Dispatch(p) => FlowState { pending: s.pending.insert(p), ..s },
        FlowEvent::FinishDelivered(p) => if s.pending.count(p) > 0 && derived_address(p) is Some {
            FlowState { pending: s.pending.remove(p), delivered: s.delivered.insert(p), ..s }
        } else {
            s
        },
        FlowEvent::FinishDropped(p) => if s.pending.count(p) > 0 && derived_address(p) is None {
            FlowState { pending: s.pending.remove(p), dropped: s.dropped.insert(p), ..s }
        } else {
            s
        },
    }
}

/// The candidate-level state after a whole sequence of events.
pub open spec fn flow_run(s: FlowState, es: Seq<FlowEvent>) -> FlowState
    decreases es.len(),
{
    if es.len() == 0 {
        s
    } else {
        flow_run(flow_step(s, es[0]), es.drop_first())
    }
}

/// The candidates a sequence of events dispatches, as a multiset: no order
/// among them is recorded, matching the pipeline's completion-order
/// delivery.
pub open spec fn dispatched_of(es: Seq<FlowEvent>) -> Multiset<Seq<char>>
    decreases es.len(),
{
    if es.len() == 0 {
        Multiset::empty()
    } else {
        match es[0] {
            FlowEvent::Dispatch(p) => dispatched_of(es.drop_first()).insert(p),
            FlowEvent::FinishDelivered(_) => dispatched_of(es.drop_first()),
            FlowEvent::FinishDropped(_) => dispatched_of(es.drop_first()),
        }
    }
}

/// Each candidate a run dispatches is afterwards in flight, delivered, or
/// dropped — counted exactly once across the three.
pub proof fn lemma_flow_accounting(s: FlowState, es: Seq<FlowEvent>, p: Seq<char>)
    ensures
        flow_run(s, es).pending.count(p) + flow_run(s, es).delivered.count(p) + flow_run(
            s,
            es,
        ).dropped.count(p) == s.pending.count(p) + s.delivered.count(p) + s.dropped.count(p)
            + dispatched_of(es).count(p),
    decreases es.len(),
{
    if es.len() > 0 {
        lemma_flow_accounting(flow_step(s, es[0]), es.drop_first(), p);
    }
}

/// A delivered candidate is always one whose phrase derives; a dropped
/// candidate always one whose phrase does not.
pub proof fn lemma_flow_outcomes_follow_derivation(s: FlowState, es: Seq<FlowEvent>, p: Seq<char>)
    requires
        s.delivered.count(p) > 0 ==> derived_address(p) is Some,
        s.dropped.count(p) > 0 ==> derived_address(p) is None,
    ensures
        flow_run(s, es).delivered.count(p) > 0 ==> derived_address(p) is Some,
        flow_run(s, es).dropped.count(p) > 0 ==> derived_address(p) is None,
    decreases es.len(),
{
    if es.len() > 0 {
        lemma_flow_outcomes_follow_derivation(flow_step(s, es[0]), es.drop_first(), p);
    }
}

/// No-loss for a completed run: once no candidate is left in flight, the
/// delivered wallets are exactly the dispatched candidates whose phrase
/// derives — each exactly once — and the dropped candidates exactly those
/// whose phrase does not; no candidate is lost, duplicated, or both
/// delivered and dropped.  In what order they arrived is deliberately not
/// claimed: a multiset carries none.
pub proof fn lemma_no_loss(es: Seq<FlowEvent>)
    requires
        forall|p: Seq<char>| flow_run(flow_init(), es).pending.count(p) == 0,
    ensures
        forall|p: Seq<char>|
            derived_address(p) is Some ==> #[trigger] flow_run(flow_init(), es).delivered.count(p)
                == dispatched_of(es).count(p),
        forall|p: Seq<char>|
            derived_address(p) is Some ==> #[trigger] flow_run(flow_init(), es).dropped.count(p)
                == 0,
        forall|p: Seq<char>|
            derived_address(p) is None ==> #[trigger] flow_run(flow_init(), es).dropped.count(p)
                == dispatched_of(es).count(p),
        forall|p: Seq<char>|
            derived_address(p) is None ==> #[trigger] flow_run(flow_init(), es).delivered.count(p)
                == 0,
{
    assert forall|p: Seq<char>|
        flow_run(flow_init(), es).delivered.count(p) + flow_run(flow_init(), es).dropped.count(p)
            == dispatched_of(es).count(p) by {
        lemma_flow_accounting(flow_init(), es, p);
    }
    assert forall|p: Seq<char>|
        (flow_run(flow_init(), es).delivered.count(p) > 0 ==> derived_address(p) is Some) && (
        flow_run(flow_init(), es).dropped.count(p) > 0 ==> derived_address(p) is None) by {
        lemma_flow_outcomes_follow_derivation(flow_init(), es, p);
    }
}

} // verus!
