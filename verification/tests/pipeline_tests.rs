use std::sync::atomic::{AtomicBool, Ordering};
use std::sync::Arc;

use vanity_wallet::cli::{effective_workers, resolve_workers, Cli};
use vanity_wallet::consumer::{consume_step, process_wallets};
use vanity_wallet::generator::{MnemonicGeneator, PoolState};
use vanity_wallet::selector::Selector;
use vanity_wallet::wallet::Wallet;

fn stub_wallet(address: &str, phrase: &str) -> Wallet {
    assert_eq!(address.chars().count(), 42);
    Wallet { address: address.to_string(), phrase: phrase.to_string() }
}

fn stub_address(head: &str) -> String {
    assert_eq!(head.len(), 3);
    format!("0x{}0123456789abcdef0123456789abcdef01234", head)
}

#[test]
fn effective_workers_resolves_zero_to_cpus_minus_one() {
    assert_eq!(effective_workers(0, 8), 7);
    assert_eq!(effective_workers(0, 2), 1);
    assert_eq!(effective_workers(3, 8), 3);
    assert_eq!(effective_workers(1, 1), 1);
    // The zero-request fallback never resolves below one worker, even on a
    // single-CPU machine.
    assert_eq!(effective_workers(0, 1), 1);
}

#[test]
fn explicit_worker_request_is_honoured() {
    let args = Cli { workers: 3, input: None, prefix: None, suffix: None };
    assert_eq!(resolve_workers(&args), 3);
    let args = Cli { workers: 0, input: None, prefix: None, suffix: None };
    let w = resolve_workers(&args);
    assert_eq!(w, std::cmp::max(num_cpus::get() - 1, 1));
}

#[test]
fn consume_step_counts_and_resets() {
    let s = consume_step(0, false);
    assert_eq!(s.examined, 1);
    assert!(!s.progress_tick);
    assert_eq!(s.new_count, 1);

    let s = consume_step(999, false);
    assert_eq!(s.examined, 1000);
    assert!(s.progress_tick);
    assert_eq!(s.new_count, 1000);

    let s = consume_step(4, true);
    assert_eq!(s.examined, 5);
    assert!(!s.progress_tick);
    assert_eq!(s.new_count, 0);
}

#[test]
fn scripted_run_reports_fifth_wallet() {
    // A deterministic scripted source: the fifth generated address starts
    // with the filtered prefix, nothing else matches.
    let mut wallets = Vec::new();
    for head in ["aaa", "bbb", "ccc", "ddd", "abc", "eee", "fff", "ggg"] {
        wallets.push(stub_wallet(&stub_address(head), "stub phrase"));
    }
    let selector = Selector::Prefix("abc".to_string());
    let report = process_wallets(&wallets, &selector);
    assert_eq!(report.matches.len(), 1);
    assert_eq!(report.matches[0].index, 4);
    assert_eq!(report.matches[0].count, 5);
    assert_eq!(report.final_count, 3);
}

#[test]
fn run_without_matches_keeps_full_count() {
    let wallets = vec![
        stub_wallet(&stub_address("aaa"), "p"),
        stub_wallet(&stub_address("bbb"), "q"),
    ];
    let selector = Selector::Prefix("zzz".to_string());
    let report = process_wallets(&wallets, &selector);
    assert_eq!(report.matches.len(), 0);
    assert_eq!(report.final_count, 2);
}

#[test]
fn consecutive_matches_reset_the_counter() {
    let wallets = vec![
        stub_wallet(&stub_address("aaa"), "p"),
        stub_wallet(&stub_address("abc"), "q"),
        stub_wallet(&stub_address("abc"), "r"),
    ];
    let selector = Selector::Prefix("abc".to_string());
    let report = process_wallets(&wallets, &selector);
    assert_eq!(report.matches.len(), 2);
    assert_eq!(report.matches[0].index, 1);
    assert_eq!(report.matches[0].count, 2);
    assert_eq!(report.matches[1].index, 2);
    assert_eq!(report.matches[1].count, 1);
    assert_eq!(report.final_count, 0);
}

#[test]
fn pool_accounts_for_every_candidate() {
    let mut pool = PoolState::new(4);
    assert_eq!(pool.free_tokens, 4);

    pool.dispatch();
    pool.dispatch();
    pool.dispatch();
    assert_eq!(pool.in_flight, 3);
    assert_eq!(pool.free_tokens, 1);
    assert_eq!(pool.dispatched, 3);

    pool.finish(true);
    pool.finish(false);
    pool.finish(true);
    assert_eq!(pool.in_flight, 0);
    assert_eq!(pool.free_tokens, 4);
    assert_eq!(pool.dispatched, 3);
    assert_eq!(pool.delivered, 2);
    assert_eq!(pool.dropped, 1);
}

#[test]
fn in_flight_never_exceeds_workers_under_load() {
    let mut pool = PoolState::new(3);
    for round in 0..1000u64 {
        let queued = pool.delivered - pool.consumed;
        if pool.running && pool.free_tokens > 0 && round % 7 != 0 {
            pool.dispatch();
        } else if pool.in_flight > 0 && (round % 2 != 0 || queued < pool.workers + 1) {
            pool.finish(round % 2 == 0);
        } else if queued > 0 {
            pool.consume();
        }
        if round == 800 {
            pool.stop();
        }
        assert!(pool.in_flight <= pool.workers);
        assert_eq!(pool.free_tokens + pool.in_flight, pool.workers);
        assert_eq!(pool.dispatched, pool.delivered + pool.dropped + pool.in_flight);
        assert!(pool.delivered - pool.consumed <= pool.workers + 1);
    }
}

#[test]
fn pool_stop_only_clears_the_flag() {
    let mut pool = PoolState::new(2);
    pool.dispatch();
    pool.stop();
    assert!(!pool.running);
    assert_eq!(pool.in_flight, 1);
    assert_eq!(pool.dispatched, 1);
    // A repeated signal is safely ignorable.
    pool.stop();
    assert!(!pool.running);
    // The in-flight derivation still finishes and delivers.
    pool.finish(true);
    assert_eq!(pool.delivered, 1);
    assert_eq!(pool.free_tokens, 2);
}

#[test]
fn stopped_source_yields_nothing() {
    let running = Arc::new(AtomicBool::new(true));
    let mut source = MnemonicGeneator::new(running.clone());
    let first = source.next();
    assert!(first.is_some());

    running.store(false, Ordering::Relaxed);
    assert!(source.next().is_none());
    assert!(source.next().is_none());
}

#[test]
fn generated_phrases_are_twelve_words() {
    let running = Arc::new(AtomicBool::new(true));
    let mut source = MnemonicGeneator::new(running);
    let phrase = source.next().expect("the source should yield while running");
    assert_eq!(phrase.split(' ').count(), 12);
}
