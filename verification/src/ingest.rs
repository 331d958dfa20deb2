//! The ingest coordinators' decisions, apart from the I/O that drives them.
//!
//! PumpPortal path: every new token's trades are subscribed on launch (up to a
//! cap). While a token is younger than the survivor age it is dropped the
//! moment it looks dead: its market cap collapsed below a fraction of its
//! running peak, or no trade arrived for the silence window. Tokens that reach
//! the survivor age are kept through the retention window. Spend is thereby
//! bounded by survivors, not launches.
//!
//! Market caps are integers in one fixed unit of the caller's choosing; the
//! drawdown threshold is in parts per million.

use vstd::prelude::*;
use crate::pumpportal::{key_views, lemma_push_no_dup, lemma_push_to_set, lemma_remove_no_dup, SubState, sub_trades_text, unsub_trades_text};
use crate::text::str_eq;
use std::collections::VecDeque;
use vstd::hash_map::StringHashMap;
use vstd::hash_set::StringHashSet;

verus! {

/// The survivor policy and the write-batching limit.
#[derive(Clone, Copy)]
pub struct SurvivorPolicy {
    /// Tokens this old (ms) are evicted and unsubscribed.
    pub retention_ms: i64,
    /// Tokens this old (ms) that have not died are survivors.
    pub survivor_age_ms: i64,
    /// Death by silence: no trade for longer than this (ms).
    pub death_silence_ms: i64,
    /// Death by collapse: latest market cap below this fraction of the running
    /// peak, in parts per million.
    pub death_drawdown_ppm: u32,
    /// Cap on concurrently trade-subscribed mints.
    pub max_active_trade_subs: usize,
    /// Buffered trades are handed over for writing once this many are held.
    pub writer_flush_rows: usize,
}

/// What is tracked of one subscribed token.
#[derive(Clone, Copy)]
pub struct TokenState {
    pub created_ms: i64,
    pub peak_mcap: u64,
    pub last_mcap: u64,
    pub last_trade_ms: i64,
    pub subscribed: bool,
    pub survived: bool,
}

/// One watched token: its mint and state.
pub struct TokenEntry {
    pub mint: String,
    pub state: TokenState,
}

/// What a sweep does to one tracked token.
pub enum Fate {
    /// Older than the retention window: evicted (and unsubscribed).
    Expire,
    /// Died before reaching the survivor age: unsubscribed and evicted.
    Die,
    /// Just reached the survivor age: marked a survivor.
    Promote,
    /// Left as it is.
    Keep,
}

/// The market cap collapsed below the drawdown fraction of its peak.
pub open spec fn collapsed(st: TokenState, p: SurvivorPolicy) -> bool {
    st.peak_mcap > 0 && st.last_mcap * 1_000_000 < p.death_drawdown_ppm * st.peak_mcap
}

/// No trade for longer than the silence window.
pub open spec fn silent(st: TokenState, now_ms: i64, p: SurvivorPolicy) -> bool {
    now_ms - st.last_trade_ms > p.death_silence_ms
}

/// The sweep rule for one token.
pub open spec fn fate(st: TokenState, now_ms: i64, p: SurvivorPolicy) -> Fate {
    let age = now_ms - st.created_ms;
    if age >= p.retention_ms {
        Fate::Expire
    } else if st.subscribed && !st.survived && age < p.survivor_age_ms {
        if collapsed(st, p) || silent(st, now_ms, p) { Fate::Die } else { Fate::Keep }
    } else if age >= p.survivor_age_ms && !st.survived {
        Fate::Promote
    } else {
        Fate::Keep
    }
}

/// A tracked token as its mint text and state.
pub open spec fn entry_view(t: TokenEntry) -> (Seq<char>, TokenState) {
    (t.mint@, t.state)
}

/// The mints of tracked entries.
pub open spec fn entry_mints(es: Seq<(Seq<char>, TokenState)>) -> Seq<Seq<char>> {
    es.map_values(|e: (Seq<char>, TokenState)| e.0)
}

/// The tracked entries after a sweep at `now_ms`: expired and dead tokens
/// gone, newly promoted ones marked survivors, the rest unchanged, order kept.
pub open spec fn swept(es: Seq<(Seq<char>, TokenState)>, now_ms: i64, p: SurvivorPolicy) -> Seq<(Seq<char>, TokenState)>
    decreases es.len(),
{
    if es.len() == 0 {
        Seq::empty()
    } else {
        let e = es.last();
        let rest = swept(es.drop_last(), now_ms, p);
        match fate(e.1, now_ms, p) {
            Fate::Expire => rest,
            Fate::Die => rest,
            Fate::Promote => rest.push((e.0, TokenState { survived: true, ..e.1 })),
            Fate::Keep => rest.push(e),
        }
    }
}

/// The mints a sweep unsubscribes: expired tokens that were subscribed, and
/// dead ones, in tracking order.
pub open spec fn swept_unsubs(es: Seq<(Seq<char>, TokenState)>, now_ms: i64, p: SurvivorPolicy) -> Seq<Seq<char>>
    decreases es.len(),
{
    if es.len() == 0 {
        Seq::empty()
    } else {
        let e = es.last();
        let rest = swept_unsubs(es.drop_last(), now_ms, p);
        match fate(e.1, now_ms, p) {
            Fate::Expire => if e.1.subscribed { rest.push(e.0) } else { rest },
            Fate::Die => rest.push(e.0),
            _ => rest,
        }
    }
}

/// How many tokens a sweep evicts (expired or dead).
pub open spec fn swept_dropped(es: Seq<(Seq<char>, TokenState)>, now_ms: i64, p: SurvivorPolicy) -> nat
    decreases es.len(),
{
    if es.len() == 0 {
        0
    } else {
        let rest = swept_dropped(es.drop_last(), now_ms, p);
        match fate(es.last().1, now_ms, p) {
            Fate::Expire => rest + 1,
            Fate::Die => rest + 1,
            _ => rest,
        }
    }
}

/// How many tokens a sweep promotes to survivors.
pub open spec fn swept_promoted(es: Seq<(Seq<char>, TokenState)>, now_ms: i64, p: SurvivorPolicy) -> nat
    decreases es.len(),
{
    if es.len() == 0 {
        0
    } else {
        let rest = swept_promoted(es.drop_last(), now_ms, p);
        match fate(es.last().1, now_ms, p) {
            Fate::Promote => rest + 1,
            _ => rest,
        }
    }
}

/// A counter advanced by one, wrapping at the top of its range.
pub open spec fn bumped(n: u64) -> u64 {
    if n == u64::MAX { 0 } else { (n + 1) as u64 }
}

/// The state a newly launched token starts with: its market cap (0 when
/// unknown) as both peak and latest, its launch as its last trade.
pub open spec fn launch_state(created_ms: i64, market_cap: Option<u64>) -> TokenState {
    let mc = match market_cap { Some(m) => m, None => 0 };
    TokenState {
        created_ms,
        peak_mcap: mc,
        last_mcap: mc,
        last_trade_ms: created_ms,
        subscribed: true,
        survived: false,
    }
}

/// A token's state after a trade at `ts_ms`: the trade time recorded and,
/// when the trade carries a market cap, that cap as the latest and the peak
/// raised to it.
pub open spec fn traded_state(st: TokenState, ts_ms: i64, market_cap: Option<u64>) -> TokenState {
    match market_cap {
        Some(m) => TokenState {
            last_trade_ms: ts_ms,
            last_mcap: m,
            peak_mcap: if m > st.peak_mcap { m } else { st.peak_mcap },
            ..st
        },
        None => TokenState { last_trade_ms: ts_ms, ..st },
    }
}

/// `es` with the entry of mint `m` set to `st`: replaced in place when `m` is
/// already present, appended otherwise.
pub open spec fn upsert(es: Seq<(Seq<char>, TokenState)>, m: Seq<char>, st: TokenState) -> Seq<(Seq<char>, TokenState)> {
    if entry_mints(es).contains(m) {
        es.update(entry_mints(es).index_of(m), (m, st))
    } else {
        es.push((m, st))
    }
}

/// `es` with the state of mint `m`, if present, changed by `f`.
pub open spec fn touch(es: Seq<(Seq<char>, TokenState)>, m: Seq<char>, ts_ms: i64, market_cap: Option<u64>) -> Seq<(Seq<char>, TokenState)> {
    if entry_mints(es).contains(m) {
        let i = entry_mints(es).index_of(m);
        es.update(i, (m, traded_state(es[i].1, ts_ms, market_cap)))
    } else {
        es
    }
}

/// Every watched token is trade-subscribed, and its mint is among the
/// subscription keys.
pub open spec fn watched_subscribed(es: Seq<(Seq<char>, TokenState)>, keys: Seq<Seq<char>>) -> bool {
    forall|k: int| 0 <= k < es.len() ==> (#[trigger] es[k]).1.subscribed && keys.contains(es[k].0)
}

proof fn lemma_mints_push(es: Seq<(Seq<char>, TokenState)>, e: (Seq<char>, TokenState))
    ensures
        entry_mints(es.push(e)) == entry_mints(es).push(e.0),
{
    assert(entry_mints(es.push(e)) =~= entry_mints(es).push(e.0));
}

proof fn lemma_mints_drop_last(es: Seq<(Seq<char>, TokenState)>)
    requires
        es.len() > 0,
    ensures
        entry_mints(es.drop_last()) == entry_mints(es).drop_last(),
        entry_mints(es).last() == es.last().0,
{
    assert(entry_mints(es.drop_last()) =~= entry_mints(es).drop_last());
}

/// What a sweep keeps has distinct mints drawn from the swept entries, none
/// of them unsubscribed; every unsubscribed mint was watched; and kept
/// entries stay subscribed when all were.
proof fn lemma_swept(es: Seq<(Seq<char>, TokenState)>, now_ms: i64, p: SurvivorPolicy)
    requires
        entry_mints(es).no_duplicates(),
    ensures
        entry_mints(swept(es, now_ms, p)).no_duplicates(),
        forall|m: Seq<char>| #[trigger] entry_mints(swept(es, now_ms, p)).contains(m)
            ==> entry_mints(es).contains(m) && !swept_unsubs(es, now_ms, p).contains(m),
        forall|m: Seq<char>| #[trigger] swept_unsubs(es, now_ms, p).contains(m) ==> entry_mints(es).contains(m),
        (forall|k: int| 0 <= k < es.len() ==> (#[trigger] es[k]).1.subscribed)
            ==> (forall|k: int| 0 <= k < swept(es, now_ms, p).len() ==> (#[trigger] swept(es, now_ms, p)[k]).1.subscribed),
        swept_dropped(es, now_ms, p) + swept_promoted(es, now_ms, p) <= es.len(),
    decreases es.len(),
{
    if es.len() > 0 {
        let r = es.drop_last();
        let e = es.last();
        lemma_mints_drop_last(es);
        let ms = entry_mints(es);
        assert(ms.drop_last().no_duplicates()) by {
            assert forall|a: int, b: int| 0 <= a < ms.drop_last().len() && 0 <= b < ms.drop_last().len() && a != b
                implies ms.drop_last()[a] != ms.drop_last()[b] by {
                assert(ms[a] != ms[b]);
            }
        }
        lemma_swept(r, now_ms, p);
        assert(!entry_mints(r).contains(e.0)) by {
            if entry_mints(r).contains(e.0) {
                let j = choose|j: int| 0 <= j < entry_mints(r).len() && entry_mints(r)[j] == e.0;
                assert(ms[j] == ms[ms.len() - 1]);
            }
        }
        assert forall|m: Seq<char>| entry_mints(r).contains(m) implies ms.contains(m) by {
            let j = choose|j: int| 0 <= j < entry_mints(r).len() && entry_mints(r)[j] == m;
            assert(ms[j] == m);
        }
        assert(ms.contains(e.0)) by {
            assert(ms[ms.len() - 1] == e.0);
        }
        let sr = swept(r, now_ms, p);
        let ur = swept_unsubs(r, now_ms, p);
        if (forall|k: int| 0 <= k < es.len() ==> (#[trigger] es[k]).1.subscribed) {
            assert forall|k: int| 0 <= k < r.len() implies (#[trigger] r[k]).1.subscribed by {
                assert(r[k] == es[k]);
            }
            assert(e.1.subscribed) by {
                assert(es[es.len() - 1] == e);
            }
        }
        match fate(e.1, now_ms, p) {
            Fate::Expire => {
                if e.1.subscribed {
                    assert forall|m: Seq<char>| #[trigger] ur.push(e.0).contains(m) implies ms.contains(m) by {
                        if m != e.0 {
                            let j = choose|j: int| 0 <= j < ur.push(e.0).len() && ur.push(e.0)[j] == m;
                            assert(ur[j] == m);
                            assert(ur.contains(m));
                            assert(entry_mints(r).contains(m));
                        }
                    }
                    assert forall|m: Seq<char>| #[trigger] entry_mints(sr).contains(m) implies !ur.push(e.0).contains(m) by {
                        if ur.push(e.0).contains(m) {
                            let j = choose|j: int| 0 <= j < ur.push(e.0).len() && ur.push(e.0)[j] == m;
                            if j < ur.len() {
                                assert(ur[j] == m);
                            }
                        }
                    }
                }
            },
            Fate::Die => {
                assert forall|m: Seq<char>| #[trigger] ur.push(e.0).contains(m) implies ms.contains(m) by {
                    if m != e.0 {
                        let j = choose|j: int| 0 <= j < ur.push(e.0).len() && ur.push(e.0)[j] == m;
                        assert(ur[j] == m);
                        assert(ur.contains(m));
                        assert(entry_mints(r).contains(m));
                    }
                }
                assert forall|m: Seq<char>| #[trigger] entry_mints(sr).contains(m) implies !ur.push(e.0).contains(m) by {
                    if ur.push(e.0).contains(m) {
                        let j = choose|j: int| 0 <= j < ur.push(e.0).len() && ur.push(e.0)[j] == m;
                        if j < ur.len() {
                            assert(ur[j] == m);
                        }
                    }
                }
            },
            _ => {
                let ne = if fate(e.1, now_ms, p) is Promote { (e.0, TokenState { survived: true, ..e.1 }) } else { e };
                assert(swept(es, now_ms, p) == sr.push(ne));
                lemma_mints_push(sr, ne);
                assert(!entry_mints(sr).contains(e.0));
                lemma_push_no_dup(entry_mints(sr), e.0);
                assert forall|m: Seq<char>| #[trigger] entry_mints(sr).push(e.0).contains(m)
                    implies ms.contains(m) && !ur.contains(m) by {
                    if m != e.0 {
                        let j = choose|j: int| 0 <= j < entry_mints(sr).push(e.0).len() && entry_mints(sr).push(e.0)[j] == m;
                        assert(entry_mints(sr)[j] == m);
                        assert(entry_mints(sr).contains(m));
                        assert(entry_mints(r).contains(m));
                    } else if ur.contains(m) {
                        assert(entry_mints(r).contains(m));
                    }
                }
                if (forall|k: int| 0 <= k < es.len() ==> (#[trigger] es[k]).1.subscribed) {
                    assert forall|k: int| 0 <= k < sr.push(ne).len() implies (#[trigger] sr.push(ne)[k]).1.subscribed by {
                        if k < sr.len() {
                            assert(sr.push(ne)[k] == sr[k]);
                        }
                    }
                }
            },
        }
    }
}

/// Taking elements out of a duplicate-free sequence's set leaves no more of
/// them than it had.
proof fn lemma_set_difference_len(keys: Seq<Seq<char>>, u: Seq<Seq<char>>)
    requires
        keys.no_duplicates(),
    ensures
        keys.to_set().difference(u.to_set()).len() <= keys.len(),
{
    keys.unique_seq_to_set();
    vstd::set_lib::lemma_len_subset(keys.to_set().difference(u.to_set()), keys.to_set());
}

proof fn lemma_take_no_dup(es: Seq<(Seq<char>, TokenState)>, i: int)
    requires
        entry_mints(es).no_duplicates(),
        0 <= i < es.len(),
    ensures
        entry_mints(es.take(i + 1)).no_duplicates(),
{
    let t = entry_mints(es.take(i + 1));
    assert forall|a: int, b: int| 0 <= a < t.len() && 0 <= b < t.len() && a != b implies t[a] != t[b] by {
        assert(t[a] == entry_mints(es)[a]);
        assert(t[b] == entry_mints(es)[b]);
    }
}

/// A survivor is never dropped as dead: once promoted, a token is only ever
/// kept or, past the retention window, expired.
pub proof fn law_survivors_only_expire(st: TokenState, now_ms: i64, p: SurvivorPolicy)
    requires
        st.survived,
    ensures
        fate(st, now_ms, p) is Expire || fate(st, now_ms, p) is Keep,
{
}

/// Tokens younger than the survivor age that neither collapsed nor went
/// silent are kept, and those that did are dropped, whatever the order of
/// checks (retention first).
pub proof fn law_young_death_rule(st: TokenState, now_ms: i64, p: SurvivorPolicy)
    requires
        st.subscribed,
        !st.survived,
        now_ms - st.created_ms < p.survivor_age_ms,
        now_ms - st.created_ms < p.retention_ms,
    ensures
        (fate(st, now_ms, p) is Die) <==> (collapsed(st, p) || silent(st, now_ms, p)),
        !(fate(st, now_ms, p) is Die) ==> fate(st, now_ms, p) is Keep,
{
}

/// What a sweep does to one watched token, mints being watched once each:
/// an expired or dead token is no longer watched; a dead one, and an expired
/// one that was subscribed, is among the mints unsubscribed (an expired one
/// that was not subscribed is not); a kept token stays watched unchanged and
/// a newly promoted one stays watched marked a survivor, neither of them
/// unsubscribed.
pub proof fn law_sweep_per_token(es: Seq<(Seq<char>, TokenState)>, now_ms: i64, p: SurvivorPolicy, k: int)
    requires
        entry_mints(es).no_duplicates(),
        0 <= k < es.len(),
    ensures
        (fate(es[k].1, now_ms, p) is Expire || fate(es[k].1, now_ms, p) is Die)
            ==> !entry_mints(swept(es, now_ms, p)).contains(es[k].0),
        (fate(es[k].1, now_ms, p) is Die || (fate(es[k].1, now_ms, p) is Expire && es[k].1.subscribed))
            ==> swept_unsubs(es, now_ms, p).contains(es[k].0),
        (fate(es[k].1, now_ms, p) is Expire && !es[k].1.subscribed)
            ==> !swept_unsubs(es, now_ms, p).contains(es[k].0),
        fate(es[k].1, now_ms, p) is Keep
            ==> swept(es, now_ms, p).contains(es[k]) && !swept_unsubs(es, now_ms, p).contains(es[k].0),
        fate(es[k].1, now_ms, p) is Promote
            ==> swept(es, now_ms, p).contains((es[k].0, TokenState { survived: true, ..es[k].1 }))
                && !swept_unsubs(es, now_ms, p).contains(es[k].0),
    decreases es.len(),
{
    let r = es.drop_last();
    let e = es.last();
    let m = es[k].0;
    let ms = entry_mints(es);
    lemma_mints_drop_last(es);
    assert(ms.drop_last().no_duplicates()) by {
        assert forall|a: int, b: int| 0 <= a < ms.drop_last().len() && 0 <= b < ms.drop_last().len() && a != b
            implies ms.drop_last()[a] != ms.drop_last()[b] by {
            assert(ms[a] != ms[b]);
        }
    }
    lemma_swept(r, now_ms, p);
    let sr = swept(r, now_ms, p);
    let ur = swept_unsubs(r, now_ms, p);
    let ne = if fate(e.1, now_ms, p) is Promote { (e.0, TokenState { survived: true, ..e.1 }) } else { e };
    if k == es.len() - 1 {
        assert(!entry_mints(r).contains(m)) by {
            if entry_mints(r).contains(m) {
                let j = choose|j: int| 0 <= j < entry_mints(r).len() && entry_mints(r)[j] == m;
                assert(ms[j] == ms[ms.len() - 1]);
            }
        }
        assert(!entry_mints(sr).contains(m));
        assert(!ur.contains(m));
        match fate(e.1, now_ms, p) {
            Fate::Expire => {
                assert(ur.push(m)[ur.len() as int] == m);
            },
            Fate::Die => {
                assert(ur.push(m)[ur.len() as int] == m);
            },
            _ => {
                assert(sr.push(ne)[sr.len() as int] == ne);
            },
        }
    } else {
        assert(r[k] == es[k]);
        assert(entry_mints(r)[k] == m);
        assert(ms[k] == m);
        assert(e.0 != m) by {
            assert(ms[ms.len() - 1] == e.0);
        }
        law_sweep_per_token(r, now_ms, p, k);
        match fate(e.1, now_ms, p) {
            Fate::Expire => {
                if e.1.subscribed {
                    assert forall|x: Seq<char>| x != e.0 implies (ur.push(e.0).contains(x) <==> ur.contains(x)) by {
                        if ur.push(e.0).contains(x) {
                            let j = choose|j: int| 0 <= j < ur.push(e.0).len() && ur.push(e.0)[j] == x;
                            assert(ur[j] == x);
                        }
                        if ur.contains(x) {
                            let j = choose|j: int| 0 <= j < ur.len() && ur[j] == x;
                            assert(ur.push(e.0)[j] == x);
                        }
                    }
                }
            },
            Fate::Die => {
                assert forall|x: Seq<char>| x != e.0 implies (ur.push(e.0).contains(x) <==> ur.contains(x)) by {
                    if ur.push(e.0).contains(x) {
                        let j = choose|j: int| 0 <= j < ur.push(e.0).len() && ur.push(e.0)[j] == x;
                        assert(ur[j] == x);
                    }
                    if ur.contains(x) {
                        let j = choose|j: int| 0 <= j < ur.len() && ur[j] == x;
                        assert(ur.push(e.0)[j] == x);
                    }
                }
            },
            _ => {
                lemma_mints_push(sr, ne);
                assert(swept(es, now_ms, p) == sr.push(ne));
                if entry_mints(sr).push(e.0).contains(m) {
                    let j = choose|j: int| 0 <= j < entry_mints(sr).push(e.0).len() && entry_mints(sr).push(e.0)[j] == m;
                    assert(entry_mints(sr)[j] == m);
                }
                if sr.contains(es[k]) {
                    let j = choose|j: int| 0 <= j < sr.len() && sr[j] == es[k];
                    assert(sr.push(ne)[j] == es[k]);
                }
                let pk = (m, TokenState { survived: true, ..es[k].1 });
                if sr.contains(pk) {
                    let j = choose|j: int| 0 <= j < sr.len() && sr[j] == pk;
                    assert(sr.push(ne)[j] == pk);
                }
            },
        }
    }
}

/// The survivor policy for one watched token, in terms of its own fields
/// (mints watched once each). Past the retention window it is evicted, and
/// unsubscribed exactly when it was subscribed. Within it, a token that has
/// reached the survivor age without being marked a survivor is promoted,
/// whatever its market cap and however long since its last trade, and is not
/// unsubscribed; a survivor stays unchanged. A subscribed token younger than
/// the survivor age is evicted and unsubscribed exactly when its market cap
/// fell below the drawdown fraction of a positive peak or no trade came for
/// longer than the silence window; otherwise it stays unchanged.
pub proof fn law_sweep_policy(es: Seq<(Seq<char>, TokenState)>, now_ms: i64, p: SurvivorPolicy, k: int)
    requires
        entry_mints(es).no_duplicates(),
        0 <= k < es.len(),
    ensures
        now_ms - es[k].1.created_ms >= p.retention_ms ==> {
            &&& !entry_mints(swept(es, now_ms, p)).contains(es[k].0)
            &&& (swept_unsubs(es, now_ms, p).contains(es[k].0) <==> es[k].1.subscribed)
        },
        (now_ms - es[k].1.created_ms < p.retention_ms && !es[k].1.survived
            && now_ms - es[k].1.created_ms >= p.survivor_age_ms) ==> {
            &&& swept(es, now_ms, p).contains((es[k].0, TokenState {
                    created_ms: es[k].1.created_ms,
                    peak_mcap: es[k].1.peak_mcap,
                    last_mcap: es[k].1.last_mcap,
                    last_trade_ms: es[k].1.last_trade_ms,
                    subscribed: es[k].1.subscribed,
                    survived: true,
                }))
            &&& !swept_unsubs(es, now_ms, p).contains(es[k].0)
        },
        (now_ms - es[k].1.created_ms < p.retention_ms && es[k].1.survived) ==> {
            &&& swept(es, now_ms, p).contains(es[k])
            &&& !swept_unsubs(es, now_ms, p).contains(es[k].0)
        },
        (now_ms - es[k].1.created_ms < p.retention_ms && es[k].1.subscribed && !es[k].1.survived
            && now_ms - es[k].1.created_ms < p.survivor_age_ms) ==> {
            let dead = (es[k].1.peak_mcap > 0
                && es[k].1.last_mcap * 1_000_000 < p.death_drawdown_ppm * es[k].1.peak_mcap)
                || now_ms - es[k].1.last_trade_ms > p.death_silence_ms;
            &&& (dead <==> !entry_mints(swept(es, now_ms, p)).contains(es[k].0))
            &&& (dead <==> swept_unsubs(es, now_ms, p).contains(es[k].0))
            &&& (!dead ==> swept(es, now_ms, p).contains(es[k]))
        },
{
    law_sweep_per_token(es, now_ms, p, k);
    let sw = swept(es, now_ms, p);
    if sw.contains(es[k]) {
        let j = choose|j: int| 0 <= j < sw.len() && sw[j] == es[k];
        assert(entry_mints(sw)[j] == es[k].0);
    }
    let pk = (es[k].0, TokenState { survived: true, ..es[k].1 });
    if sw.contains(pk) {
        let j = choose|j: int| 0 <= j < sw.len() && sw[j] == pk;
        assert(entry_mints(sw)[j] == es[k].0);
    }
}

/// What a remembered signature list keeps: the new signature, every earlier
/// one while there is room, and every earlier one but the oldest once the
/// list is full; it never holds more than the cap.
pub proof fn law_recent_signatures_kept(recent: Seq<Seq<char>>, sig: Seq<char>, x: Seq<char>)
    requires
        recent.len() <= SIG_CAP,
    ensures
        remembered(recent, sig).contains(sig),
        remembered(recent, sig).len() <= SIG_CAP,
        (recent.contains(x) && (recent.len() < SIG_CAP || x != recent[0])) ==> remembered(recent, sig).contains(x),
{
    let r = remembered(recent, sig);
    let q = recent.push(sig);
    assert(q[recent.len() as int] == sig);
    if recent.len() + 1 > SIG_CAP {
        assert(r[r.len() - 1] == sig);
    } else {
        assert(r[recent.len() as int] == sig);
    }
    if recent.contains(x) && (recent.len() < SIG_CAP || x != recent[0]) {
        let j = choose|j: int| 0 <= j < recent.len() && recent[j] == x;
        if recent.len() + 1 > SIG_CAP {
            assert(j != 0);
            assert(r[j - 1] == q[j]);
        } else {
            assert(r[j] == x);
        }
    }
}

/// A replay is dropped even when other trades were kept in between: after
/// kept trades carrying `first` and then `second`, a trade carrying `first`
/// is not kept.
pub proof fn law_replay_after_other_dropped(created: Map<Seq<char>, i64>, recent: Seq<Seq<char>>,
    early_ms: Option<i64>, mint: Seq<char>, ts_ms: i64, first: Seq<char>, second: Seq<char>)
    requires
        recent.len() <= SIG_CAP,
    ensures
        !trade_kept(created, remembered(remembered(recent, first), second), early_ms, mint, ts_ms, Some(first)),
{
    let r1 = remembered(recent, first);
    law_recent_signatures_kept(recent, first, first);
    assert(r1[r1.len() - 1] == first) by {
        if recent.len() + 1 <= SIG_CAP {
            assert(r1[recent.len() as int] == first);
        }
    }
    let r2 = remembered(r1, second);
    if r1.len() + 1 > SIG_CAP {
        assert(r2[r1.len() - 2] == r1.push(second)[r1.len() - 1]);
        assert(r2[r1.len() - 2] == first);
    } else {
        assert(r2[r1.len() - 1] == first);
    }
}

/// The trade-subscription cap holds over a whole run: starting with no
/// trade subscriptions, and with every step keeping the count within the
/// cap whenever it was within it (what `on_new_token` and `sweep` ensure, and
/// what the other steps, which change no subscription, keep), no state of the
/// run exceeds the cap.
pub proof fn law_cap_over_a_run(states: Seq<SubState>, cap: usize)
    requires
        states.len() > 0,
        states[0].keys().len() == 0,
        forall|i: int| 0 <= i < states.len() - 1
            ==> (#[trigger] states[i].keys().len() <= cap ==> states[i + 1].keys().len() <= cap),
    ensures
        forall|i: int| 0 <= i < states.len() ==> #[trigger] states[i].keys().len() <= cap,
{
    assert forall|i: int| 0 <= i < states.len() implies #[trigger] states[i].keys().len() <= cap by {
        lemma_cap_upto(states, cap, i);
    }
}

proof fn lemma_cap_upto(states: Seq<SubState>, cap: usize, i: int)
    requires
        0 <= i < states.len(),
        states[0].keys().len() == 0,
        forall|j: int| 0 <= j < states.len() - 1
            ==> (#[trigger] states[j].keys().len() <= cap ==> states[j + 1].keys().len() <= cap),
    ensures
        states[i].keys().len() <= cap,
    decreases i,
{
    if i > 0 {
        lemma_cap_upto(states, cap, i - 1);
        assert(states[i - 1].keys().len() <= cap);
    }
}

/// The counts a sweep reports, and the unsubscribe request it produced.
pub struct SweepReport {
    /// Tokens evicted (expired or dead).
    pub dropped: usize,
    /// Tokens promoted to survivors by this sweep.
    pub survivors: usize,
    /// Trade subscriptions still active afterwards.
    pub active: usize,
    /// The unsubscribe request to send, if any mint was unsubscribed.
    pub unsub_frame: Option<String>,
}

fn decide(st: TokenState, now_ms: i64, p: SurvivorPolicy) -> (f: Fate)
    ensures
        f == fate(st, now_ms, p),
{
    let age: i128 = now_ms as i128 - st.created_ms as i128;
    if age >= p.retention_ms as i128 {
        Fate::Expire
    } else if st.subscribed && !st.survived && age < p.survivor_age_ms as i128 {
        let ppm = p.death_drawdown_ppm as u128;
        let peak = st.peak_mcap as u128;
        proof {
            assert(ppm * peak <= 0xffff_ffff_u128 * 0xffff_ffff_ffff_ffff_u128) by (nonlinear_arith)
                requires
                    ppm <= 0xffff_ffff_u128,
                    peak <= 0xffff_ffff_ffff_ffff_u128,
            ;
        }
        let is_collapsed = st.peak_mcap > 0 && (st.last_mcap as u128) * 1_000_000 < ppm * peak;
        let is_silent = now_ms as i128 - st.last_trade_ms as i128 > p.death_silence_ms as i128;
        if is_collapsed || is_silent { Fate::Die } else { Fate::Keep }
    } else if age >= p.survivor_age_ms as i128 && !st.survived {
        Fate::Promote
    } else {
        Fate::Keep
    }
}

/// The PumpPortal-path coordinator state: tracked tokens, the buffered trades
/// awaiting a write, and counters.
pub struct SurvivorTracker<T> {
    policy: SurvivorPolicy,
    states: Vec<TokenEntry>,
    buffer: Vec<T>,
    tokens_seen: u64,
    trades_seen: u64,
}

impl<T> SurvivorTracker<T> {
    /// No mint is tracked twice, and the trade buffer is handed over before it
    /// reaches the flush size.
    #[verifier::type_invariant]
    spec fn well_formed(self) -> bool {
        &&& entry_mints(self.states@.map_values(|t: TokenEntry| entry_view(t))).no_duplicates()
        &&& (self.buffer@.len() < self.policy.writer_flush_rows || self.buffer@.len() == 0)
    }

    /// The policy in force.
    pub closed spec fn policy(self) -> SurvivorPolicy {
        self.policy
    }

    /// The tracked tokens, in the order they were first tracked.
    pub closed spec fn entries(self) -> Seq<(Seq<char>, TokenState)> {
        self.states@.map_values(|t: TokenEntry| entry_view(t))
    }

    /// The buffered trades, oldest first.
    pub closed spec fn buffered(self) -> Seq<T> {
        self.buffer@
    }

    /// New tokens seen.
    pub closed spec fn tokens_seen_count(self) -> u64 {
        self.tokens_seen
    }

    /// Trades seen.
    pub closed spec fn trades_seen_count(self) -> u64 {
        self.trades_seen
    }

    /// A coordinator with nothing tracked or buffered.
    pub fn new(policy: SurvivorPolicy) -> (s: Self)
        ensures
            s.policy() == policy,
            s.entries() == Seq::<(Seq<char>, TokenState)>::empty(),
            entry_mints(s.entries()).no_duplicates(),
            s.buffered() == Seq::<T>::empty(),
            s.tokens_seen_count() == 0,
            s.trades_seen_count() == 0,
    {
        let s = SurvivorTracker { policy, states: Vec::new(), buffer: Vec::new(), tokens_seen: 0, trades_seen: 0 };
        assert(s.entries() =~= Seq::<(Seq<char>, TokenState)>::empty());
        s
    }

    /// How many tokens are watched.
    pub fn token_count(&self) -> (n: usize)
        ensures
            n == self.entries().len(),
            entry_mints(self.entries()).no_duplicates(),
    {
        proof {
            use_type_invariant(self);
        }
        self.states.len()
    }

    /// New tokens seen so far.
    pub fn tokens_seen(&self) -> (n: u64)
        ensures
            n == self.tokens_seen_count(),
    {
        self.tokens_seen
    }

    /// Trades seen so far.
    pub fn trades_seen(&self) -> (n: u64)
        ensures
            n == self.trades_seen_count(),
    {
        self.trades_seen
    }

    fn position(&self, mint: &str) -> (r: Option<usize>)
        ensures
            match r {
                Some(i) => i < self.entries().len() && self.entries()[i as int].0 == mint@,
                None => !entry_mints(self.entries()).contains(mint@),
            },
    {
        let mut i: usize = 0;
        while i < self.states.len()
            invariant
                i <= self.states@.len(),
                forall|j: int| 0 <= j < i ==> self.states@[j].mint@ != mint@,
            decreases self.states@.len() - i,
        {
            if str_eq(self.states[i].mint.as_str(), mint) {
                return Some(i);
            }
            i += 1;
        }
        assert forall|j: int| 0 <= j < entry_mints(self.entries()).len() implies entry_mints(self.entries())[j] != mint@ by {
            assert(entry_mints(self.entries())[j] == self.states@[j].mint@);
        }
        None
    }

    /// The entries of `v`, viewed.
    closed spec fn views_of(v: Seq<TokenEntry>) -> Seq<(Seq<char>, TokenState)> {
        v.map_values(|t: TokenEntry| entry_view(t))
    }

    /// A token launched. It is counted; when fewer mints than the cap are
    /// trade-subscribed, its trades are subscribed and it is watched (a mint
    /// already watched starts over), and the subscribe request is returned.
    /// At the cap nothing else changes: no trades will arrive for it, so it
    /// is not watched.
    pub fn on_new_token(&mut self, subs: &mut SubState, mint: String, created_ms: i64, market_cap: Option<u64>) -> (frame: Option<String>)
        ensures
            entry_mints(old(self).entries()).no_duplicates(),
            entry_mints(final(self).entries()).no_duplicates(),
            final(self).policy() == old(self).policy(),
            final(self).tokens_seen_count() == bumped(old(self).tokens_seen_count()),
            final(self).trades_seen_count() == old(self).trades_seen_count(),
            final(self).buffered() == old(self).buffered(),
            final(subs).new_token_on() == old(subs).new_token_on(),
            old(subs).keys().len() < old(self).policy().max_active_trade_subs ==> {
                &&& frame matches Some(f) && f@ == sub_trades_text(seq![mint@])
                &&& final(subs).keys().to_set() == old(subs).keys().to_set().insert(mint@)
                &&& final(self).entries() == upsert(old(self).entries(), mint@, launch_state(created_ms, market_cap))
            },
            old(subs).keys().len() >= old(self).policy().max_active_trade_subs ==> {
                &&& frame is None
                &&& *final(subs) == *old(subs)
                &&& final(self).entries() == old(self).entries()
            },
            old(subs).keys().len() <= old(self).policy().max_active_trade_subs
                ==> final(subs).keys().len() <= final(self).policy().max_active_trade_subs,
            watched_subscribed(old(self).entries(), old(subs).keys())
                ==> watched_subscribed(final(self).entries(), final(subs).keys()),
    {
        proof {
            use_type_invariant(&*self);
        }
        self.tokens_seen = if self.tokens_seen == u64::MAX { 0 } else { self.tokens_seen + 1 };
        if subs.active_trade_subs() >= self.policy.max_active_trade_subs {
            return None;
        }
        let ghost old_keys = subs.keys();
        let mut one: Vec<String> = Vec::new();
        one.push(mint.clone());
        assert(key_views(one@) =~= seq![mint@]);
        let frame = subs.subscribe_trades(one.as_slice());
        proof {
            assert(seq![mint@].to_set() =~= set![mint@]);
            assert(old_keys.to_set().union(set![mint@]) =~= old_keys.to_set().insert(mint@));
        }
        let mc = match market_cap { Some(m) => m, None => 0 };
        let st = TokenState {
            created_ms,
            peak_mcap: mc,
            last_mcap: mc,
            last_trade_ms: created_ms,
            subscribed: true,
            survived: false,
        };
        let ghost es = self.entries();
        let pos = self.position(mint.as_str());
        let mut states: Vec<TokenEntry> = Vec::new();
        std::mem::swap(&mut states, &mut self.states);
        assert(Self::views_of(states@) == es);
        let ghost m = mint@;
        match pos {
            Some(i) => {
                proof {
                    assert(entry_mints(es)[i as int] == m);
                    assert(entry_mints(es).contains(m));
                    let k = entry_mints(es).index_of(m);
                    assert(entry_mints(es)[k] == m);
                    assert(k == i as int);
                }
                let _ = states.remove(i);
                states.insert(i, TokenEntry { mint, state: st });
                assert(Self::views_of(states@) =~= es.update(i as int, (m, st)));
                assert(entry_mints(Self::views_of(states@)) =~= entry_mints(es));
            },
            None => {
                states.push(TokenEntry { mint, state: st });
                assert(Self::views_of(states@) =~= es.push((m, st)));
                proof {
                    lemma_mints_push(es, (m, st));
                    lemma_push_no_dup(entry_mints(es), m);
                }
            },
        }
        self.states = states;
        proof {
            let fk = subs.keys();
            let fe = self.entries();
            if watched_subscribed(es, old_keys) {
                assert forall|k: int| 0 <= k < fe.len() implies (#[trigger] fe[k]).1.subscribed && fk.contains(fe[k].0) by {
                    if fe[k].0 == m {
                        assert(fk.to_set().contains(m));
                    } else {
                        assert(fe[k] == es[k]);
                        assert(old_keys.to_set().contains(fe[k].0));
                        assert(fk.to_set().contains(fe[k].0));
                    }
                }
            }
        }
        frame
    }

    /// A trade arrived. It is counted; a watched token records the trade time
    /// and, when the trade carries one, its market cap as the latest and the
    /// peak. The trade is buffered, and once the buffer holds the flush size
    /// it is handed back whole to be written.
    pub fn on_trade(&mut self, mint: &str, ts_ms: i64, market_cap: Option<u64>, item: T) -> (batch: Option<Vec<T>>)
        ensures
            entry_mints(old(self).entries()).no_duplicates(),
            entry_mints(final(self).entries()).no_duplicates(),
            final(self).policy() == old(self).policy(),
            final(self).tokens_seen_count() == old(self).tokens_seen_count(),
            final(self).trades_seen_count() == bumped(old(self).trades_seen_count()),
            final(self).entries() == touch(old(self).entries(), mint@, ts_ms, market_cap),
            forall|keys: Seq<Seq<char>>| watched_subscribed(old(self).entries(), keys)
                ==> #[trigger] watched_subscribed(final(self).entries(), keys),
            old(self).buffered().len() + 1 >= old(self).policy().writer_flush_rows ==> {
                &&& batch matches Some(b) && b@ == old(self).buffered().push(item)
                &&& final(self).buffered() == Seq::<T>::empty()
            },
            old(self).buffered().len() + 1 < old(self).policy().writer_flush_rows ==> {
                &&& batch is None
                &&& final(self).buffered() == old(self).buffered().push(item)
            },
    {
        proof {
            use_type_invariant(&*self);
        }
        self.trades_seen = if self.trades_seen == u64::MAX { 0 } else { self.trades_seen + 1 };
        let ghost es = self.entries();
        match self.position(mint) {
            Some(i) => {
                let mut states: Vec<TokenEntry> = Vec::new();
                std::mem::swap(&mut states, &mut self.states);
                assert(Self::views_of(states@) == es);
                let e = states.remove(i);
                let old_st = e.state;
                let st = match market_cap {
                    Some(m) => TokenState {
                        created_ms: old_st.created_ms,
                        peak_mcap: if m > old_st.peak_mcap { m } else { old_st.peak_mcap },
                        last_mcap: m,
                        last_trade_ms: ts_ms,
                        subscribed: old_st.subscribed,
                        survived: old_st.survived,
                    },
                    None => TokenState {
                        created_ms: old_st.created_ms,
                        peak_mcap: old_st.peak_mcap,
                        last_mcap: old_st.last_mcap,
                        last_trade_ms: ts_ms,
                        subscribed: old_st.subscribed,
                        survived: old_st.survived,
                    },
                };
                states.insert(i, TokenEntry { mint: e.mint, state: st });
                proof {
                    assert(entry_mints(es)[i as int] == mint@);
                    assert(entry_mints(es).contains(mint@));
                    let k = entry_mints(es).index_of(mint@);
                    assert(entry_mints(es)[k] == mint@);
                    assert(k == i as int);
                    assert(st == traded_state(es[i as int].1, ts_ms, market_cap));
                }
                assert(Self::views_of(states@) =~= es.update(i as int, (mint@, st)));
                assert(entry_mints(Self::views_of(states@)) =~= entry_mints(es));
                self.states = states;
            },
            None => {},
        }
        let mut buffer: Vec<T> = Vec::new();
        std::mem::swap(&mut buffer, &mut self.buffer);
        buffer.push(item);
        if buffer.len() >= self.policy.writer_flush_rows {
            Some(buffer)
        } else {
            self.buffer = buffer;
            None
        }
    }

    /// Hands back the buffered trades, if there are any, to be written.
    pub fn flush(&mut self) -> (batch: Option<Vec<T>>)
        ensures
            entry_mints(old(self).entries()).no_duplicates(),
            entry_mints(final(self).entries()).no_duplicates(),
            final(self).policy() == old(self).policy(),
            final(self).entries() == old(self).entries(),
            final(self).tokens_seen_count() == old(self).tokens_seen_count(),
            final(self).trades_seen_count() == old(self).trades_seen_count(),
            final(self).buffered() == Seq::<T>::empty(),
            old(self).buffered().len() > 0 ==> (batch matches Some(b) && b@ == old(self).buffered()),
            old(self).buffered().len() == 0 ==> batch is None,
    {
        proof {
            use_type_invariant(&*self);
        }
        if self.buffer.len() == 0 {
            return None;
        }
        let mut buffer: Vec<T> = Vec::new();
        std::mem::swap(&mut buffer, &mut self.buffer);
        Some(buffer)
    }

    /// The periodic sweep at `now_ms`: tokens past the retention window are
    /// evicted (and unsubscribed), tokens that died before the survivor age
    /// are unsubscribed and evicted, tokens that reached it are marked
    /// survivors. The unsubscriptions go out as one request. Reports the
    /// evicted and newly promoted counts and the subscriptions left.
    pub fn sweep(&mut self, subs: &mut SubState, now_ms: i64) -> (report: SweepReport)
        ensures
            entry_mints(old(self).entries()).no_duplicates(),
            entry_mints(final(self).entries()).no_duplicates(),
            final(self).policy() == old(self).policy(),
            final(self).tokens_seen_count() == old(self).tokens_seen_count(),
            final(self).trades_seen_count() == old(self).trades_seen_count(),
            final(self).buffered() == old(self).buffered(),
            final(self).entries() == swept(old(self).entries(), now_ms, old(self).policy()),
            final(subs).new_token_on() == old(subs).new_token_on(),
            final(subs).keys().to_set()
                == old(subs).keys().to_set().difference(swept_unsubs(old(self).entries(), now_ms, old(self).policy()).to_set()),
            swept_unsubs(old(self).entries(), now_ms, old(self).policy()).len() > 0 ==> (report.unsub_frame matches Some(f)
                && f@ == unsub_trades_text(swept_unsubs(old(self).entries(), now_ms, old(self).policy()))),
            swept_unsubs(old(self).entries(), now_ms, old(self).policy()).len() == 0 ==> report.unsub_frame is None
                && *final(subs) == *old(subs),
            report.dropped == swept_dropped(old(self).entries(), now_ms, old(self).policy()),
            report.survivors == swept_promoted(old(self).entries(), now_ms, old(self).policy()),
            report.active == final(subs).keys().len(),
            final(subs).keys().len() <= old(subs).keys().len(),
            watched_subscribed(old(self).entries(), old(subs).keys())
                ==> watched_subscribed(final(self).entries(), final(subs).keys()),
    {
        proof {
            use_type_invariant(&*self);
        }
        let p = self.policy;
        let ghost es = self.entries();
        let ghost old_keys = subs.keys();
        let _ = subs.active_trade_subs();
        let mut states: Vec<TokenEntry> = Vec::new();
        std::mem::swap(&mut states, &mut self.states);
        assert(Self::views_of(states@) == es);
        let mut kept: Vec<TokenEntry> = Vec::new();
        let mut unsub: Vec<String> = Vec::new();
        let mut dropped: usize = 0;
        let mut promoted: usize = 0;
        let mut i: usize = 0;
        proof {
            lemma_swept(es, now_ms, p);
            assert(es.take(0) =~= Seq::<(Seq<char>, TokenState)>::empty());
            assert(Self::views_of(kept@) =~= Seq::<(Seq<char>, TokenState)>::empty());
            assert(key_views(unsub@) =~= Seq::<Seq<char>>::empty());
        }
        while i < states.len()
            invariant
                i <= states@.len(),
                Self::views_of(states@) == es,
                Self::views_of(kept@) == swept(es.take(i as int), now_ms, p),
                key_views(unsub@) == swept_unsubs(es.take(i as int), now_ms, p),
                dropped == swept_dropped(es.take(i as int), now_ms, p),
                promoted == swept_promoted(es.take(i as int), now_ms, p),
                dropped + promoted <= i,
                entry_mints(es).no_duplicates(),
            decreases states@.len() - i,
        {
            let ghost pre = es.take(i as int);
            let e = &states[i];
            proof {
                assert(es.take(i + 1).drop_last() =~= pre);
                assert(es.take(i + 1).last() == es[i as int]);
                assert(es[i as int] == entry_view(states@[i as int]));
                lemma_take_no_dup(es, i as int);
                lemma_swept(es.take(i + 1), now_ms, p);
            }
            match decide(e.state, now_ms, p) {
                Fate::Expire => {
                    if e.state.subscribed {
                        unsub.push(e.mint.clone());
                    }
                    dropped += 1;
                },
                Fate::Die => {
                    unsub.push(e.mint.clone());
                    dropped += 1;
                },
                Fate::Promote => {
                    let st = e.state;
                    kept.push(TokenEntry {
                        mint: e.mint.clone(),
                        state: TokenState {
                            created_ms: st.created_ms,
                            peak_mcap: st.peak_mcap,
                            last_mcap: st.last_mcap,
                            last_trade_ms: st.last_trade_ms,
                            subscribed: st.subscribed,
                            survived: true,
                        },
                    });
                    promoted += 1;
                },
                Fate::Keep => {
                    kept.push(TokenEntry { mint: e.mint.clone(), state: e.state });
                },
            }
            i += 1;
            assert(Self::views_of(kept@) =~= swept(es.take(i as int), now_ms, p));
            assert(key_views(unsub@) =~= swept_unsubs(es.take(i as int), now_ms, p));
        }
        assert(es.take(i as int) =~= es);
        self.states = kept;
        let frame = if unsub.len() > 0 {
            subs.unsubscribe_trades(unsub.as_slice(), true)
        } else {
            assert(key_views(unsub@).to_set() =~= Set::<Seq<char>>::empty());
            assert(old_keys.to_set().difference(key_views(unsub@).to_set()) =~= old_keys.to_set());
            None
        };
        let active = subs.active_trade_subs();
        proof {
            let fk = subs.keys();
            let u = swept_unsubs(es, now_ms, p);
            lemma_set_difference_len(old_keys, u);
            if watched_subscribed(es, old_keys) {
                let fe = self.entries();
                assert(forall|k: int| 0 <= k < es.len() ==> (#[trigger] es[k]).1.subscribed);
                assert forall|k: int| 0 <= k < fe.len() implies (#[trigger] fe[k]).1.subscribed && fk.contains(fe[k].0) by {
                    let m = fe[k].0;
                    assert(entry_mints(fe)[k] == m);
                    assert(entry_mints(fe).contains(m));
                    assert(entry_mints(es).contains(m));
                    let j = choose|j: int| 0 <= j < entry_mints(es).len() && entry_mints(es)[j] == m;
                    assert(es[j].0 == m);
                    assert(old_keys.contains(m));
                    assert(old_keys.to_set().contains(m));
                    assert(!u.to_set().contains(m));
                    assert(fk.to_set().contains(m));
                }
            }
        }
        SweepReport { dropped, survivors: promoted, active, unsub_frame: frame }
    }

}

} // verus!

verus! {

/// How many recent trade signatures the Helius path remembers, to drop the
/// duplicates a reconnect replays.
pub const SIG_CAP: usize = 500_000;

/// `created` without the tokens launched before `cutoff_ms`.
pub open spec fn retained(created: Map<Seq<char>, i64>, cutoff_ms: i64) -> Map<Seq<char>, i64> {
    created.restrict(created.dom().filter(|k: Seq<char>| created[k] >= cutoff_ms))
}

/// The launch times of the tokens seen this session, by mint.
pub struct CreatedIndex {
    map: StringHashMap<i64>,
    keys: Vec<String>,
}

impl CreatedIndex {
    /// The mints are listed once each, and exactly the mapped ones.
    pub closed spec fn wf(self) -> bool {
        &&& key_views(self.keys@).no_duplicates()
        &&& key_views(self.keys@).to_set() == self.map@.dom()
    }

    /// Launch time by mint.
    pub closed spec fn view(self) -> Map<Seq<char>, i64> {
        self.map@
    }

    /// Nothing indexed.
    pub fn new() -> (r: CreatedIndex)
        ensures
            r.wf(),
            r.view() == Map::<Seq<char>, i64>::empty(),
    {
        let r = CreatedIndex { map: StringHashMap::new(), keys: Vec::new() };
        assert(key_views(r.keys@).to_set() =~= Set::<Seq<char>>::empty());
        r
    }

    /// Records (or re-records) `mint` as launched at `created_ms`.
    pub fn insert(&mut self, mint: String, created_ms: i64)
        requires
            old(self).wf(),
        ensures
            final(self).wf(),
            final(self).view() == old(self).view().insert(mint@, created_ms),
    {
        if !self.map.contains_key(mint.as_str()) {
            let ghost before = key_views(self.keys@);
            self.keys.push(mint.clone());
            proof {
                assert(key_views(self.keys@) =~= before.push(mint@));
                lemma_push_to_set(before, mint@);
                lemma_push_no_dup(before, mint@);
            }
        } else {
            assert(self.map@.dom().insert(mint@) =~= self.map@.dom());
        }
        self.map.insert(mint, created_ms);
        assert(key_views(self.keys@).to_set() =~= self.map@.dom());
    }

    /// The launch time of `mint`, if it is indexed.
    pub fn get(&self, mint: &str) -> (r: Option<i64>)
        ensures
            r == (if self.view().contains_key(mint@) { Some(self.view()[mint@]) } else { None }),
    {
        match self.map.get(mint) {
            Some(c) => Some(*c),
            None => None,
        }
    }

    /// How many mints are indexed.
    pub fn len(&self) -> (n: usize)
        requires
            self.wf(),
        ensures
            n == self.view().len(),
    {
        proof {
            key_views(self.keys@).unique_seq_to_set();
        }
        self.keys.len()
    }

    /// Drops the mints launched before `cutoff_ms`.
    pub fn retain_from(&mut self, cutoff_ms: i64)
        requires
            old(self).wf(),
        ensures
            final(self).wf(),
            final(self).view() == retained(old(self).view(), cutoff_ms),
    {
        let ghost m0 = self.map@;
        let mut keys: Vec<String> = Vec::new();
        std::mem::swap(&mut keys, &mut self.keys);
        let ghost ks = key_views(keys@);
        let mut kept: Vec<String> = Vec::new();
        let mut i: usize = 0;
        proof {
            assert(key_views(kept@) =~= Seq::<Seq<char>>::empty());
        }
        while i < keys.len()
            invariant
                i <= keys@.len(),
                ks == key_views(keys@),
                ks.no_duplicates(),
                ks.to_set() == m0.dom(),
                key_views(kept@).no_duplicates(),
                forall|k: Seq<char>| #[trigger] key_views(kept@).contains(k)
                    <==> ks.take(i as int).contains(k) && m0[k] >= cutoff_ms,
                forall|k: Seq<char>| #[trigger] self.map@.contains_key(k)
                    <==> m0.contains_key(k) && (ks.take(i as int).contains(k) ==> m0[k] >= cutoff_ms),
                forall|k: Seq<char>| self.map@.contains_key(k) ==> #[trigger] self.map@[k] == m0[k],
            decreases keys@.len() - i,
        {
            let k = &keys[i];
            let ghost kv = k@;
            proof {
                assert(ks[i as int] == kv);
                assert(ks.contains(kv));
                assert(m0.dom().contains(kv));
                assert(!ks.take(i as int).contains(kv)) by {
                    let t0 = ks.take(i as int);
                    if t0.contains(kv) {
                        let j = choose|j: int| 0 <= j < t0.len() && t0[j] == kv;
                        assert(ks[j] == ks[i as int]);
                    }
                }
                let t0 = ks.take(i as int);
                let t1 = ks.take(i + 1);
                assert forall|x: Seq<char>| t1.contains(x) <==> t0.contains(x) || x == kv by {
                    if t1.contains(x) {
                        let j = choose|j: int| 0 <= j < t1.len() && t1[j] == x;
                        if j < i {
                            assert(t0[j] == x);
                        }
                    }
                    if t0.contains(x) {
                        let j = choose|j: int| 0 <= j < t0.len() && t0[j] == x;
                        assert(t1[j] == x);
                    }
                    if x == kv {
                        assert(t1[i as int] == x);
                    }
                }
            }
            let c = match self.map.get(k.as_str()) {
                Some(c) => *c,
                None => 0,
            };
            if c >= cutoff_ms {
                let ghost before = key_views(kept@);
                kept.push(k.clone());
                proof {
                    assert(key_views(kept@) =~= before.push(kv));
                    assert(!before.contains(kv));
                    lemma_push_no_dup(before, kv);
                    assert forall|x: Seq<char>| #[trigger] key_views(kept@).contains(x)
                        <==> before.contains(x) || x == kv by {
                        if key_views(kept@).contains(x) {
                            let j = choose|j: int| 0 <= j < key_views(kept@).len() && key_views(kept@)[j] == x;
                            if j < before.len() {
                                assert(before[j] == x);
                            }
                        }
                        if before.contains(x) {
                            let j = choose|j: int| 0 <= j < before.len() && before[j] == x;
                            assert(key_views(kept@)[j] == x);
                        }
                        if x == kv {
                            assert(key_views(kept@)[before.len() as int] == x);
                        }
                    }
                }
            } else {
                let mut map = StringHashMap::new();
                std::mem::swap(&mut map, &mut self.map);
                map.remove(k.as_str());
                self.map = map;
            }
            i += 1;
        }
        proof {
            assert(ks.take(i as int) =~= ks);
            assert(key_views(kept@).to_set() =~= self.map@.dom());
            assert(self.map@ =~= retained(m0, cutoff_ms));
        }
        self.keys = kept;
    }
}

/// A duplicate-free record of the most recent trade signatures, at most
/// `SIG_CAP` of them, oldest first.
pub struct SigRing {
    seen: StringHashSet,
    order: VecDeque<String>,
}

/// `recent` after remembering `sig`: appended, and the oldest forgotten
/// when that would exceed the cap.
pub open spec fn remembered(recent: Seq<Seq<char>>, sig: Seq<char>) -> Seq<Seq<char>> {
    if recent.len() + 1 > SIG_CAP { recent.push(sig).drop_first() } else { recent.push(sig) }
}

impl SigRing {
    /// The set mirrors the queue, which holds no signature twice and no more
    /// than the cap.
    pub closed spec fn wf(self) -> bool {
        &&& key_views(self.order@).no_duplicates()
        &&& self.seen@ == key_views(self.order@).to_set()
        &&& self.order@.len() <= SIG_CAP
    }

    /// The remembered signatures, oldest first.
    pub closed spec fn view(self) -> Seq<Seq<char>> {
        key_views(self.order@)
    }

    /// Nothing remembered.
    pub fn new() -> (r: SigRing)
        ensures
            r.wf(),
            r.view() == Seq::<Seq<char>>::empty(),
    {
        let r = SigRing { seen: StringHashSet::new(), order: VecDeque::new() };
        assert(key_views(r.order@) =~= Seq::<Seq<char>>::empty());
        assert(key_views(r.order@).to_set() =~= Set::<Seq<char>>::empty());
        r
    }

    /// Remembers `sig` unless it is remembered already; returns whether it
    /// was new.
    pub fn remember(&mut self, sig: String) -> (fresh: bool)
        requires
            old(self).wf(),
        ensures
            final(self).wf(),
            fresh == !old(self).view().contains(sig@),
            fresh ==> final(self).view() == remembered(old(self).view(), sig@),
            !fresh ==> final(self).view() == old(self).view(),
    {
        if self.seen.contains(sig.as_str()) {
            return false;
        }
        let ghost before = key_views(self.order@);
        let ghost s = sig@;
        self.seen.insert(sig.clone());
        self.order.push_back(sig);
        proof {
            assert(key_views(self.order@) =~= before.push(s));
            lemma_push_to_set(before, s);
            lemma_push_no_dup(before, s);
        }
        if self.order.len() > SIG_CAP {
            let ghost full = key_views(self.order@);
            match self.order.pop_front() {
                Some(oldest) => {
                    self.seen.remove(oldest.as_str());
                    proof {
                        assert(key_views(self.order@) =~= full.drop_first());
                        assert(full.drop_first() =~= full.remove(0));
                        lemma_remove_no_dup(full, 0);
                    }
                },
                None => {},
            }
        }
        true
    }
}

/// What the Helius path keeps of a trade: only trades of tokens launched
/// this session, within the early window after launch when one is set, and
/// not carrying a recently seen signature.
pub open spec fn trade_kept(created: Map<Seq<char>, i64>, recent: Seq<Seq<char>>, early_ms: Option<i64>,
    mint: Seq<char>, ts_ms: i64, sig: Option<Seq<char>>) -> bool
{
    &&& created.contains_key(mint)
    &&& match early_ms { Some(w) => ts_ms - created[mint] <= w, None => true }
    &&& match sig { Some(s) => !recent.contains(s), None => true }
}

/// The Helius-path coordinator state: one firehose subscription carries every
/// launch and trade, so there is no per-token subscription; new tokens are
/// always kept, and trades of tokens seen launching.
pub struct FirehoseTracker<T> {
    created: CreatedIndex,
    sigs: SigRing,
    early_ms: Option<i64>,
    flush_rows: usize,
    buffer: Vec<T>,
    tokens_seen: u64,
    trades_seen: u64,
    trades_kept: u64,
}

impl<T> FirehoseTracker<T> {
    #[verifier::type_invariant]
    spec fn well_formed(self) -> bool {
        &&& self.created.wf()
        &&& self.sigs.wf()
        &&& (self.buffer@.len() < self.flush_rows || self.buffer@.len() == 0)
    }

    /// Launch time by mint, for the tokens seen this session and not yet pruned.
    pub closed spec fn launches(self) -> Map<Seq<char>, i64> {
        self.created.view()
    }

    /// The remembered trade signatures, oldest first.
    pub closed spec fn recent_sigs(self) -> Seq<Seq<char>> {
        self.sigs.view()
    }

    /// The early-trade window (ms after launch), if any.
    pub closed spec fn early_window(self) -> Option<i64> {
        self.early_ms
    }

    /// The buffered trades, oldest first.
    pub closed spec fn buffered(self) -> Seq<T> {
        self.buffer@
    }

    /// The flush size.
    pub closed spec fn flush_rows(self) -> usize {
        self.flush_rows
    }

    /// Counters: launches seen, trades seen, trades kept.
    pub closed spec fn counts(self) -> (u64, u64, u64) {
        (self.tokens_seen, self.trades_seen, self.trades_kept)
    }

    /// Nothing seen yet.
    pub fn new(early_ms: Option<i64>, flush_rows: usize) -> (s: Self)
        ensures
            s.launches() == Map::<Seq<char>, i64>::empty(),
            s.recent_sigs() == Seq::<Seq<char>>::empty(),
            s.early_window() == early_ms,
            s.buffered() == Seq::<T>::empty(),
            s.flush_rows() == flush_rows,
            s.counts() == (0u64, 0u64, 0u64),
            s.recent_sigs().len() <= SIG_CAP,
    {
        FirehoseTracker {
            created: CreatedIndex::new(),
            sigs: SigRing::new(),
            early_ms,
            flush_rows,
            buffer: Vec::new(),
            tokens_seen: 0,
            trades_seen: 0,
            trades_kept: 0,
        }
    }

    /// A token launched: counted and indexed by its launch time.
    pub fn on_new_token(&mut self, mint: String, created_ms: i64)
        ensures
            final(self).launches() == old(self).launches().insert(mint@, created_ms),
            final(self).recent_sigs() == old(self).recent_sigs(),
            final(self).early_window() == old(self).early_window(),
            final(self).buffered() == old(self).buffered(),
            final(self).flush_rows() == old(self).flush_rows(),
            final(self).counts() == (bumped(old(self).counts().0), old(self).counts().1, old(self).counts().2),
    {
        proof {
            use_type_invariant(&*self);
        }
        self.tokens_seen = if self.tokens_seen == u64::MAX { 0 } else { self.tokens_seen + 1 };
        let mut created = CreatedIndex::new();
        std::mem::swap(&mut created, &mut self.created);
        created.insert(mint, created_ms);
        self.created = created;
    }

    /// A trade arrived. It is counted; it is kept only when its token was
    /// seen launching, it falls within the early window (if set), and its
    /// signature (if any) was not seen recently. A kept trade's signature is
    /// remembered and the trade buffered; once the buffer holds the flush
    /// size it is handed back whole to be written.
    pub fn on_trade(&mut self, mint: &str, ts_ms: i64, signature: Option<String>, item: T) -> (batch: Option<Vec<T>>)
        ensures
            old(self).recent_sigs().len() <= SIG_CAP,
            final(self).recent_sigs().len() <= SIG_CAP,
            final(self).launches() == old(self).launches(),
            final(self).early_window() == old(self).early_window(),
            final(self).flush_rows() == old(self).flush_rows(),
            final(self).counts().0 == old(self).counts().0,
            final(self).counts().1 == bumped(old(self).counts().1),
            !trade_kept(old(self).launches(), old(self).recent_sigs(), old(self).early_window(), mint@, ts_ms, opt_string_view(signature)) ==> {
                &&& batch is None
                &&& final(self).buffered() == old(self).buffered()
                &&& final(self).recent_sigs() == old(self).recent_sigs()
                &&& final(self).counts().2 == old(self).counts().2
            },
            trade_kept(old(self).launches(), old(self).recent_sigs(), old(self).early_window(), mint@, ts_ms, opt_string_view(signature)) ==> {
                &&& final(self).counts().2 == bumped(old(self).counts().2)
                &&& final(self).recent_sigs() == match opt_string_view(signature) {
                    Some(s) => remembered(old(self).recent_sigs(), s),
                    None => old(self).recent_sigs(),
                }
                &&& old(self).buffered().len() + 1 >= old(self).flush_rows() ==> {
                    &&& batch matches Some(b) && b@ == old(self).buffered().push(item)
                    &&& final(self).buffered() == Seq::<T>::empty()
                }
                &&& old(self).buffered().len() + 1 < old(self).flush_rows() ==> {
                    &&& batch is None
                    &&& final(self).buffered() == old(self).buffered().push(item)
                }
            },
    {
        proof {
            use_type_invariant(&*self);
        }
        self.trades_seen = if self.trades_seen == u64::MAX { 0 } else { self.trades_seen + 1 };
        let cms = match self.created.get(mint) {
            Some(c) => c,
            None => return None,
        };
        match self.early_ms {
            Some(w) => {
                if (ts_ms as i128) - (cms as i128) > (w as i128) {
                    return None;
                }
            },
            None => {},
        }
        match signature {
            Some(sig) => {
                let mut sigs = SigRing::new();
                std::mem::swap(&mut sigs, &mut self.sigs);
                let fresh = sigs.remember(sig);
                self.sigs = sigs;
                if !fresh {
                    return None;
                }
            },
            None => {},
        }
        self.trades_kept = if self.trades_kept == u64::MAX { 0 } else { self.trades_kept + 1 };
        let mut buffer: Vec<T> = Vec::new();
        std::mem::swap(&mut buffer, &mut self.buffer);
        buffer.push(item);
        if buffer.len() >= self.flush_rows {
            Some(buffer)
        } else {
            self.buffer = buffer;
            None
        }
    }

    /// Hands back the buffered trades, if there are any, to be written.
    pub fn flush(&mut self) -> (batch: Option<Vec<T>>)
        ensures
            final(self).launches() == old(self).launches(),
            final(self).recent_sigs() == old(self).recent_sigs(),
            final(self).early_window() == old(self).early_window(),
            final(self).flush_rows() == old(self).flush_rows(),
            final(self).counts() == old(self).counts(),
            final(self).buffered() == Seq::<T>::empty(),
            old(self).buffered().len() > 0 ==> (batch matches Some(b) && b@ == old(self).buffered()),
            old(self).buffered().len() == 0 ==> batch is None,
    {
        proof {
            use_type_invariant(&*self);
        }
        if self.buffer.len() == 0 {
            return None;
        }
        let mut buffer: Vec<T> = Vec::new();
        std::mem::swap(&mut buffer, &mut self.buffer);
        Some(buffer)
    }

    /// The periodic sweep: forgets the tokens launched before `cutoff_ms`
    /// (their trades are no longer kept) and returns how many remain.
    pub fn sweep(&mut self, cutoff_ms: i64) -> (remaining: usize)
        ensures
            final(self).launches() == retained(old(self).launches(), cutoff_ms),
            remaining == final(self).launches().len(),
            final(self).recent_sigs() == old(self).recent_sigs(),
            final(self).early_window() == old(self).early_window(),
            final(self).flush_rows() == old(self).flush_rows(),
            final(self).counts() == old(self).counts(),
            final(self).buffered() == old(self).buffered(),
    {
        proof {
            use_type_invariant(&*self);
        }
        let mut created = CreatedIndex::new();
        std::mem::swap(&mut created, &mut self.created);
        created.retain_from(cutoff_ms);
        let n = created.len();
        self.created = created;
        n
    }

    /// How many tokens are indexed.
    pub fn token_count(&self) -> (n: usize)
        ensures
            n == self.launches().len(),
    {
        proof {
            use_type_invariant(self);
        }
        self.created.len()
    }

    /// Launches seen, trades seen and trades kept so far.
    pub fn counters(&self) -> (c: (u64, u64, u64))
        ensures
            c == self.counts(),
    {
        (self.tokens_seen, self.trades_seen, self.trades_kept)
    }
}

/// The view of an optional string.
pub open spec fn opt_string_view(o: Option<String>) -> Option<Seq<char>> {
    match o { Some(s) => Some(s@), None => None }
}

/// A trade replayed right after it was kept is dropped: its signature is
/// then among the remembered ones.
pub proof fn law_replayed_signature_dropped(created: Map<Seq<char>, i64>, recent: Seq<Seq<char>>,
    early_ms: Option<i64>, mint: Seq<char>, ts_ms: i64, sig: Seq<char>)
    ensures
        !trade_kept(created, remembered(recent, sig), early_ms, mint, ts_ms, Some(sig)),
{
    let r = remembered(recent, sig);
    if recent.len() + 1 > SIG_CAP {
        assert(r[r.len() - 1] == sig);
    } else {
        assert(r[recent.len() as int] == sig);
    }
}

/// After a sweep at `cutoff_ms`, every token still indexed launched at or
/// after the cutoff, and every token that did is still indexed.
pub proof fn law_sweep_keeps_exactly_recent(created: Map<Seq<char>, i64>, cutoff_ms: i64, mint: Seq<char>)
    ensures
        retained(created, cutoff_ms).contains_key(mint)
            <==> (created.contains_key(mint) && created[mint] >= cutoff_ms),
        retained(created, cutoff_ms).contains_key(mint) ==> retained(created, cutoff_ms)[mint] == created[mint],
{
}

} // verus!
