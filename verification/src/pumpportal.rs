//! Subscription bookkeeping for the PumpPortal websocket.
//!
//! `SubState` is the source of truth for what the connection is subscribed
//! to: every change returns the frame to send, and on reconnect the frames
//! that re-establish the whole state are produced from it, so subscriptions
//! survive reconnects without being sent twice.

use vstd::prelude::*;
use crate::text::{json_quoted, push_char, push_json_string, str_eq};

verus! {

/// Views of a sequence of strings.
pub open spec fn key_views(v: Seq<String>) -> Seq<Seq<char>> {
    v.map_values(|s: String| s@)
}

/// The position of `k` in `keys`, if present.
pub(crate) fn find_key(keys: &Vec<String>, k: &str) -> (r: Option<usize>)
    ensures
        match r {
            Some(i) => i < keys@.len() && keys@[i as int]@ == k@,
            None => !key_views(keys@).contains(k@),
        },
{
    let mut i: usize = 0;
    while i < keys.len()
        invariant
            i <= keys@.len(),
            forall|j: int| 0 <= j < i ==> keys@[j]@ != k@,
        decreases keys@.len() - i,
    {
        if str_eq(keys[i].as_str(), k) {
            return Some(i);
        }
        i += 1;
    }
    assert forall|j: int| 0 <= j < key_views(keys@).len() implies key_views(keys@)[j] != k@ by {
        assert(key_views(keys@)[j] == keys@[j]@);
    }
    None
}

pub(crate) proof fn lemma_push_to_set<A>(s: Seq<A>, x: A)
    ensures
        s.push(x).to_set() == s.to_set().insert(x),
{
    assert forall|y: A| s.push(x).contains(y) <==> s.to_set().insert(x).contains(y) by {
        if s.push(x).contains(y) && y != x {
            let k = choose|k: int| 0 <= k < s.push(x).len() && s.push(x)[k] == y;
            assert(s[k] == y);
        }
        if s.contains(y) {
            let k = choose|k: int| 0 <= k < s.len() && s[k] == y;
            assert(s.push(x)[k] == y);
        }
        if y == x {
            assert(s.push(x)[s.len() as int] == y);
        }
    }
    assert(s.push(x).to_set() =~= s.to_set().insert(x));
}

pub(crate) proof fn lemma_push_no_dup<A>(s: Seq<A>, x: A)
    requires
        s.no_duplicates(),
        !s.contains(x),
    ensures
        s.push(x).no_duplicates(),
{
    assert forall|i: int, j: int| 0 <= i < s.push(x).len() && 0 <= j < s.push(x).len() && i != j
        implies s.push(x)[i] != s.push(x)[j] by {
        if i == s.len() as int {
            assert(s[j] == s.push(x)[j]);
        } else if j == s.len() as int {
            assert(s[i] == s.push(x)[i]);
        }
    }
}

pub(crate) proof fn lemma_remove_no_dup<A>(s: Seq<A>, j: int)
    requires
        s.no_duplicates(),
        0 <= j < s.len(),
    ensures
        s.remove(j).no_duplicates(),
        s.remove(j).to_set() == s.to_set().remove(s[j]),
{
    let r = s.remove(j);
    assert forall|a: int, b: int| 0 <= a < r.len() && 0 <= b < r.len() && a != b implies r[a] != r[b] by {
        let a2 = if a < j { a } else { a + 1 };
        let b2 = if b < j { b } else { b + 1 };
        assert(r[a] == s[a2]);
        assert(r[b] == s[b2]);
    }
    assert forall|y: A| r.contains(y) <==> s.to_set().remove(s[j]).contains(y) by {
        if r.contains(y) {
            let k = choose|k: int| 0 <= k < r.len() && r[k] == y;
            let k2 = if k < j { k } else { k + 1 };
            assert(s[k2] == y);
        }
        if s.contains(y) && y != s[j] {
            let k = choose|k: int| 0 <= k < s.len() && s[k] == y;
            if k < j {
                assert(r[k] == y);
            } else {
                assert(k != j);
                assert(r[k - 1] == y);
            }
        }
    }
    assert(r.to_set() =~= s.to_set().remove(s[j]));
}

/// `ks` with each of `ms` appended unless already present, in order.
pub open spec fn with_keys(ks: Seq<Seq<char>>, ms: Seq<Seq<char>>) -> Seq<Seq<char>>
    decreases ms.len(),
{
    if ms.len() == 0 {
        ks
    } else {
        let r = with_keys(ks, ms.drop_last());
        if r.contains(ms.last()) { r } else { r.push(ms.last()) }
    }
}

/// `ks` without `m`, the order of the rest kept.
pub open spec fn without_key(ks: Seq<Seq<char>>, m: Seq<char>) -> Seq<Seq<char>> {
    if ks.contains(m) { ks.remove(ks.index_of(m)) } else { ks }
}

/// `ks` without each of `ms`, the order of the rest kept.
pub open spec fn without_keys(ks: Seq<Seq<char>>, ms: Seq<Seq<char>>) -> Seq<Seq<char>>
    decreases ms.len(),
{
    if ms.len() == 0 {
        ks
    } else {
        without_key(without_keys(ks, ms.drop_last()), ms.last())
    }
}

/// The JSON array literal of `keys`, comma separated.
pub open spec fn json_string_list(keys: Seq<Seq<char>>) -> Seq<char>
    decreases keys.len(),
{
    if keys.len() == 0 {
        Seq::empty()
    } else if keys.len() == 1 {
        json_quoted(keys[0])
    } else {
        json_string_list(keys.drop_last()) + seq![','] + json_quoted(keys.last())
    }
}

/// `{"keys":[..],"method":..}`: a subscription request naming `keys`.
pub open spec fn method_keys_text(method: Seq<char>, keys: Seq<Seq<char>>) -> Seq<char> {
    "{\"keys\":["@ + json_string_list(keys) + "],\"method\":"@ + json_quoted(method) + seq!['}']
}

/// The request that subscribes to the new-token stream.
pub open spec fn sub_new_token_text() -> Seq<char> {
    "{\"method\":\"subscribeNewToken\"}"@
}

/// The request that subscribes to the trades of `keys`.
pub open spec fn sub_trades_text(keys: Seq<Seq<char>>) -> Seq<char> {
    method_keys_text("subscribeTokenTrade"@, keys)
}

/// The request that unsubscribes from the trades of `keys`.
pub open spec fn unsub_trades_text(keys: Seq<Seq<char>>) -> Seq<char> {
    method_keys_text("unsubscribeTokenTrade"@, keys)
}

/// `{"method":"subscribeNewToken"}`.
pub fn sub_new_token() -> (r: String)
    ensures
        r@ == sub_new_token_text(),
{
    String::from_str("{\"method\":\"subscribeNewToken\"}")
}

/// A request of `method` naming `keys` (`{"keys":[..],"method":..}`).
pub fn method_with_keys(method: &str, keys: &[String]) -> (r: String)
    ensures
        r@ == method_keys_text(method@, key_views(keys@)),
{
    let mut r = String::from_str("{\"keys\":[");
    let ghost start = r@;
    let mut i: usize = 0;
    while i < keys.len()
        invariant
            i <= keys@.len(),
            r@ == start + json_string_list(key_views(keys@.take(i as int))),
        decreases keys@.len() - i,
    {
        let ghost prev = key_views(keys@.take(i as int));
        if i > 0 {
            push_char(&mut r, ',');
        }
        push_json_string(&mut r, keys[i].as_str());
        i += 1;
        assert(key_views(keys@.take(i as int)).drop_last() =~= prev);
        assert(key_views(keys@.take(i as int)).last() == keys@[i - 1]@);
        if i == 1 {
            assert(key_views(keys@.take(1))[0] == keys@[0]@);
        }
        assert(r@ =~= start + json_string_list(key_views(keys@.take(i as int))));
    }
    assert(keys@.take(i as int) =~= keys@);
    r.append("],\"method\":");
    push_json_string(&mut r, method);
    push_char(&mut r, '}');
    r
}

/// `{"keys":[..],"method":"subscribeTokenTrade"}`.
pub fn sub_trades(keys: &[String]) -> (r: String)
    ensures
        r@ == sub_trades_text(key_views(keys@)),
{
    method_with_keys("subscribeTokenTrade", keys)
}

/// `{"keys":[..],"method":"unsubscribeTokenTrade"}`.
pub fn unsub_trades(keys: &[String]) -> (r: String)
    ensures
        r@ == unsub_trades_text(key_views(keys@)),
{
    method_with_keys("unsubscribeTokenTrade", keys)
}

/// What the PumpPortal connection is subscribed to: the new-token stream,
/// and the set of mints whose trades are streamed.
pub struct SubState {
    new_token: bool,
    trade_keys: Vec<String>,
}

impl SubState {
    /// No mint appears twice among the trade subscriptions.
    #[verifier::type_invariant]
    spec fn keys_distinct(self) -> bool {
        key_views(self.trade_keys@).no_duplicates()
    }

    /// Whether the new-token stream is subscribed.
    pub closed spec fn new_token_on(self) -> bool {
        self.new_token
    }

    /// The trade-subscribed mints, in the order they were added.
    pub closed spec fn keys(self) -> Seq<Seq<char>> {
        key_views(self.trade_keys@)
    }

    /// Nothing subscribed.
    pub fn new() -> (s: SubState)
        ensures
            !s.new_token_on(),
            s.keys() == Seq::<Seq<char>>::empty(),
    {
        let s = SubState { new_token: false, trade_keys: Vec::new() };
        assert(key_views(s.trade_keys@) =~= Seq::<Seq<char>>::empty());
        s
    }

    /// Turns the new-token stream on; returns the request to send.
    pub fn subscribe_new_token(&mut self) -> (frame: String)
        ensures
            final(self).new_token_on(),
            final(self).keys() == old(self).keys(),
            frame@ == sub_new_token_text(),
    {
        proof {
            use_type_invariant(&*self);
        }
        self.new_token = true;
        sub_new_token()
    }

    /// Adds `mints` to the trade subscriptions; returns the request naming
    /// them, or `None` (and no change) when `mints` is empty.
    pub fn subscribe_trades(&mut self, mints: &[String]) -> (frame: Option<String>)
        ensures
            final(self).new_token_on() == old(self).new_token_on(),
            mints@.len() == 0 ==> frame is None && final(self).keys() == old(self).keys(),
            mints@.len() > 0 ==> (frame matches Some(f) && f@ == sub_trades_text(key_views(mints@))),
            final(self).keys() == with_keys(old(self).keys(), key_views(mints@)),
            final(self).keys().to_set() == old(self).keys().to_set().union(key_views(mints@).to_set()),
            final(self).keys().len() <= old(self).keys().len() + mints@.len(),
    {
        proof {
            use_type_invariant(&*self);
        }
        if mints.len() == 0 {
            assert(key_views(mints@).to_set() =~= Set::<Seq<char>>::empty());
            assert(self.keys().to_set() =~= self.keys().to_set().union(key_views(mints@).to_set()));
            assert(key_views(mints@) =~= Seq::<Seq<char>>::empty());
            return None;
        }
        let mut keys: Vec<String> = Vec::new();
        std::mem::swap(&mut keys, &mut self.trade_keys);
        let ghost start = key_views(keys@);
        let mut i: usize = 0;
        assert(key_views(mints@.take(0)) =~= Seq::<Seq<char>>::empty());
        while i < mints.len()
            invariant
                i <= mints@.len(),
                key_views(keys@).no_duplicates(),
                key_views(keys@).to_set() == start.to_set().union(key_views(mints@.take(i as int)).to_set()),
                key_views(keys@) == with_keys(start, key_views(mints@.take(i as int))),
                keys@.len() <= start.len() + i,
            decreases mints@.len() - i,
        {
            let ghost before = key_views(keys@);
            let ghost m = mints@[i as int]@;
            match find_key(&keys, mints[i].as_str()) {
                None => {
                    keys.push(mints[i].clone());
                    assert(key_views(keys@) =~= before.push(m));
                    proof {
                        lemma_push_to_set(before, m);
                        lemma_push_no_dup(before, m);
                    }
                },
                Some(j) => {
                    assert(before[j as int] == m);
                    assert(before.to_set() =~= before.to_set().insert(m));
                },
            }
            assert(key_views(keys@).to_set() == before.to_set().insert(m));
            i += 1;
            assert(key_views(mints@.take(i as int)) =~= key_views(mints@.take(i - 1)).push(m));
            proof {
                lemma_push_to_set(key_views(mints@.take(i - 1)), m);
            }
            assert(key_views(keys@).to_set() =~= start.to_set().union(key_views(mints@.take(i as int)).to_set()));
            assert(key_views(mints@.take(i as int)).drop_last() =~= key_views(mints@.take(i - 1)));
        }
        assert(mints@.take(i as int) =~= mints@);
        self.trade_keys = keys;
        Some(sub_trades(mints))
    }

    /// Drops `mints` from the trade subscriptions. Returns the request naming
    /// them when `send_frame` is set (with `send_frame` false only the state
    /// changes, for use while offline); `None`, and no change, when `mints`
    /// is empty.
    pub fn unsubscribe_trades(&mut self, mints: &[String], send_frame: bool) -> (frame: Option<String>)
        ensures
            final(self).new_token_on() == old(self).new_token_on(),
            mints@.len() == 0 ==> frame is None && final(self).keys() == old(self).keys(),
            mints@.len() > 0 && send_frame ==> (frame matches Some(f) && f@ == unsub_trades_text(key_views(mints@))),
            !send_frame ==> frame is None,
            final(self).keys() == without_keys(old(self).keys(), key_views(mints@)),
            final(self).keys().to_set() == old(self).keys().to_set().difference(key_views(mints@).to_set()),
    {
        proof {
            use_type_invariant(&*self);
        }
        if mints.len() == 0 {
            assert(key_views(mints@).to_set() =~= Set::<Seq<char>>::empty());
            assert(self.keys().to_set() =~= self.keys().to_set().difference(key_views(mints@).to_set()));
            assert(key_views(mints@) =~= Seq::<Seq<char>>::empty());
            return None;
        }
        let mut keys: Vec<String> = Vec::new();
        std::mem::swap(&mut keys, &mut self.trade_keys);
        let ghost start = key_views(keys@);
        let mut i: usize = 0;
        while i < mints.len()
            invariant
                i <= mints@.len(),
                key_views(keys@).no_duplicates(),
                key_views(keys@).to_set() == start.to_set().difference(key_views(mints@.take(i as int)).to_set()),
                key_views(keys@) == without_keys(start, key_views(mints@.take(i as int))),
            decreases mints@.len() - i,
        {
            let ghost before = key_views(keys@);
            let ghost m = mints@[i as int]@;
            match find_key(&keys, mints[i].as_str()) {
                Some(j) => {
                    keys.remove(j);
                    assert(key_views(keys@) =~= before.remove(j as int));
                    proof {
                        lemma_remove_no_dup(before, j as int);
                    }
                    assert(before[j as int] == m);
                    proof {
                        assert(before.contains(m));
                        let k = before.index_of(m);
                        assert(before[k] == m);
                        assert(k == j as int);
                    }
                },
                None => {
                    assert(before.to_set() =~= before.to_set().remove(m));
                },
            }
            assert(key_views(keys@).to_set() == before.to_set().remove(m));
            i += 1;
            assert(key_views(mints@.take(i as int)) =~= key_views(mints@.take(i - 1)).push(m));
            proof {
                lemma_push_to_set(key_views(mints@.take(i - 1)), m);
            }
            assert(key_views(keys@).to_set() =~= start.to_set().difference(key_views(mints@.take(i as int)).to_set()));
            assert(key_views(mints@.take(i as int)).drop_last() =~= key_views(mints@.take(i - 1)));
        }
        assert(mints@.take(i as int) =~= mints@);
        self.trade_keys = keys;
        if send_frame {
            Some(unsub_trades(mints))
        } else {
            None
        }
    }

    /// How many mints are trade-subscribed.
    pub fn active_trade_subs(&self) -> (n: usize)
        ensures
            n == self.keys().len(),
            n == self.keys().to_set().len(),
            self.keys().no_duplicates(),
    {
        proof {
            use_type_invariant(self);
            self.keys().unique_seq_to_set();
        }
        self.trade_keys.len()
    }

    /// The requests that re-establish the whole subscription state on a fresh
    /// connection: the new-token request if that stream is on, then one
    /// trade request naming every subscribed mint if there are any.
    pub fn resubscribe_frames(&self) -> (frames: Vec<String>)
        ensures
            key_views(frames@) == (if self.new_token_on() { seq![sub_new_token_text()] } else { Seq::empty() })
                + (if self.keys().len() > 0 { seq![sub_trades_text(self.keys())] } else { Seq::empty() }),
            self.keys().no_duplicates(),
    {
        proof {
            use_type_invariant(self);
        }
        let mut frames: Vec<String> = Vec::new();
        if self.new_token {
            frames.push(sub_new_token());
        }
        if self.trade_keys.len() > 0 {
            frames.push(sub_trades(self.trade_keys.as_slice()));
        }
        assert(key_views(frames@) =~= (if self.new_token_on() { seq![sub_new_token_text()] } else { Seq::empty() })
            + (if self.keys().len() > 0 { seq![sub_trades_text(self.keys())] } else { Seq::empty() }));
        frames
    }
}

/// Unsubscribing the mints just subscribed restores the subscription set,
/// when none of them was subscribed before: `before` is a state,
/// `subscribed` the state `subscribe_trades(mints)` leaves (its keys the
/// union), `restored` the state `unsubscribe_trades(mints, _)` then leaves
/// (its keys the difference).
pub proof fn law_unsubscribe_undoes_subscribe(before: SubState, subscribed: SubState, restored: SubState, mints: Seq<Seq<char>>)
    requires
        subscribed.keys().to_set() == before.keys().to_set().union(mints.to_set()),
        restored.keys().to_set() == subscribed.keys().to_set().difference(mints.to_set()),
        forall|m: Seq<char>| mints.contains(m) ==> !before.keys().contains(m),
    ensures
        restored.keys().to_set() == before.keys().to_set(),
{
    assert(restored.keys().to_set() =~= before.keys().to_set());
}

/// The first reconnect delay, and the delay after a healthy connection.
pub const BACKOFF_FIRST_MS: u64 = 500;

/// The longest reconnect delay.
pub const BACKOFF_CAP_MS: u64 = 60_000;

/// A connection that stayed up longer than this (ns) counts as healthy.
pub const HEALTHY_NS: u64 = 30_000_000_000;

/// The reconnect delay of a supervised websocket connection: exponential,
/// from half a second up to a minute, reset after a healthy connection.
pub struct Backoff {
    ms: u64,
}

/// The delay after the next one: doubled, at most the cap.
pub open spec fn doubled_capped(ms: u64) -> u64 {
    if ms * 2 > BACKOFF_CAP_MS { BACKOFF_CAP_MS } else { (ms * 2) as u64 }
}

impl Backoff {
    /// The delay is always within the first delay and the cap.
    #[verifier::type_invariant]
    spec fn in_range(self) -> bool {
        BACKOFF_FIRST_MS <= self.ms <= BACKOFF_CAP_MS
    }

    /// The delay the next disconnect waits, unless the connection was healthy.
    pub closed spec fn current(self) -> u64 {
        self.ms
    }

    /// Starts at the first delay.
    pub fn new() -> (b: Backoff)
        ensures
            b.current() == BACKOFF_FIRST_MS,
    {
        Backoff { ms: BACKOFF_FIRST_MS }
    }

    /// A connection that was up for `connected_for_ns` ended: returns how long
    /// to wait before reconnecting (the first delay again after a healthy
    /// connection), and doubles the delay for next time, up to the cap.
    pub fn on_disconnect(&mut self, connected_for_ns: u64) -> (delay_ms: u64)
        ensures
            delay_ms == (if connected_for_ns > HEALTHY_NS { BACKOFF_FIRST_MS } else { old(self).current() }),
            final(self).current() == doubled_capped(delay_ms),
            BACKOFF_FIRST_MS <= delay_ms <= BACKOFF_CAP_MS,
            BACKOFF_FIRST_MS <= final(self).current() <= BACKOFF_CAP_MS,
    {
        proof {
            use_type_invariant(&*self);
        }
        let delay = if connected_for_ns > HEALTHY_NS { BACKOFF_FIRST_MS } else { self.ms };
        let next = if delay * 2 > BACKOFF_CAP_MS { BACKOFF_CAP_MS } else { delay * 2 };
        self.ms = next;
        delay
    }
}

} // verus!
