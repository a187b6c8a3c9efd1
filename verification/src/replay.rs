//! Freshness of timestamps, and the cache of nonces that have been seen.

use crate::types::PresentedClientAuth;
use vstd::prelude::*;

verus! {

/// Default permitted clock skew, in seconds, for the timestamp and replay window.
pub const DEFAULT_SKEW_SECS: i64 = 300;

/// The most nonces that the cache holds at a time. At this many live entries further
/// requests are refused rather than admitted unrecorded.
pub const MAX_NONCE_ENTRIES: usize = 1_000_000;

/// Whether a timestamp lies in the closed window of `skew` seconds to either side of `now`.
pub open spec fn in_window(timestamp: int, now: int, skew: int) -> bool {
    now - skew <= timestamp <= now + skew
}

/// Whether a request with this timestamp can be admitted at `now` or later: its window has
/// not closed.
pub open spec fn window_open(timestamp: int, now: int, skew: int) -> bool {
    now - timestamp <= skew
}

/// A nonce that a client used, and the timestamp that came with it.
pub struct SeenNonce {
    pub client_id: Seq<char>,
    pub nonce: Seq<char>,
    pub timestamp: i64,
}

/// The entries whose window is open at `now`, in their order.
pub open spec fn live(seen: Seq<SeenNonce>, now: int, skew: int) -> Seq<SeenNonce> {
    seen.filter(|e: SeenNonce| window_open(e.timestamp as int, now, skew))
}

/// Whether a client's nonce is among the entries.
pub open spec fn was_seen(seen: Seq<SeenNonce>, client_id: Seq<char>, nonce: Seq<char>) -> bool {
    exists|i: int|
        0 <= i < seen.len() && (#[trigger] seen[i]).client_id == client_id && seen[i].nonce == nonce
}

/// What the cache says to a nonce.
#[derive(Debug, Clone, Copy, PartialEq, Eq, Structural)]
pub enum Admission {
    /// It is new, and has been recorded.
    Recorded,
    /// The client has used it, and its window is still open.
    Seen,
    /// There is no room to record it.
    Full,
}

/// What the cache says to a nonce at `now`, its stale entries apart.
pub open spec fn admission(seen: Seq<SeenNonce>, entry: SeenNonce, now: int, skew: int) -> Admission {
    if was_seen(live(seen, now, skew), entry.client_id, entry.nonce) {
        Admission::Seen
    } else if live(seen, now, skew).len() >= MAX_NONCE_ENTRIES {
        Admission::Full
    } else {
        Admission::Recorded
    }
}

/// The entries after a nonce was put to the cache at `now`: those whose window is open,
/// and the new one behind them if it was recorded.
pub open spec fn entries_after(
    seen: Seq<SeenNonce>,
    entry: SeenNonce,
    now: int,
    skew: int,
) -> Seq<SeenNonce> {
    if admission(seen, entry, now, skew) == Admission::Recorded {
        live(seen, now, skew).push(entry)
    } else {
        live(seen, now, skew)
    }
}

/// What always holds of the cache: it is bounded, and no client's nonce is in it twice.
pub open spec fn well_kept(seen: Seq<SeenNonce>) -> bool {
    &&& seen.len() <= MAX_NONCE_ENTRIES
    &&& forall|i: int, j: int|
        0 <= i < j < seen.len() ==> !((#[trigger] seen[i]).client_id == (
        #[trigger] seen[j]).client_id && seen[i].nonce == seen[j].nonce)
}

/// Whether a timestamp is within `skew_secs` of `now`, before or after. No timestamp is
/// too far off to be compared.
pub fn is_fresh(timestamp: i64, now: i64, skew_secs: i64) -> (fresh: bool)
    ensures
        fresh == in_window(timestamp as int, now as int, skew_secs as int),
        fresh <==> now - skew_secs <= timestamp && timestamp <= now + skew_secs,
{
    let age: i128 = now as i128 - timestamp as i128;
    -(skew_secs as i128) <= age && age <= skew_secs as i128
}

/// Whether a nonce with this timestamp still has to be remembered at `now`.
pub fn is_replayable(timestamp: i64, now: i64, skew_secs: i64) -> (open: bool)
    ensures
        open == window_open(timestamp as int, now as int, skew_secs as int),
        open <==> now <= timestamp + skew_secs,
{
    now as i128 - timestamp as i128 <= skew_secs as i128
}

/// A recorded nonce sighting within the replay window.
#[derive(Debug)]
struct NonceEntry {
    client_id: String,
    nonce: String,
    timestamp: i64,
}

impl View for NonceEntry {
    type V = SeenNonce;

    closed spec fn view(&self) -> SeenNonce {
        SeenNonce { client_id: self.client_id@, nonce: self.nonce@, timestamp: self.timestamp }
    }
}

/// Bounded cache of recently seen nonces. An entry is kept for as long as a replay of the
/// request it came from could be admitted, and no longer.
#[derive(Debug)]
pub struct ReplayCache {
    entries: Vec<NonceEntry>,
}

impl View for ReplayCache {
    type V = Seq<SeenNonce>;

    closed spec fn view(&self) -> Seq<SeenNonce> {
        self.entries@.map_values(|e: NonceEntry| e@)
    }
}

impl ReplayCache {
    /// An empty cache.
    pub fn new() -> (cache: ReplayCache)
        ensures
            cache@ == Seq::<SeenNonce>::empty(),
            well_kept(cache@),
    {
        let cache = ReplayCache { entries: Vec::new() };
        assert(cache@ =~= Seq::<SeenNonce>::empty());
        cache
    }

    /// Drops the entries whose window has closed at `now`, wherever they stand.
    fn evict(&mut self, now: i64, skew_secs: i64)
        ensures
            final(self)@ == live(old(self)@, now as int, skew_secs as int),
    {
        let ghost before = self@;
        let ghost open = |e: SeenNonce| window_open(e.timestamp as int, now as int, skew_secs as int);
        let mut entries: Vec<NonceEntry> = Vec::new();
        std::mem::swap(&mut entries, &mut self.entries);
        let ghost all = entries@;
        let mut kept: Vec<NonceEntry> = Vec::new();
        for e in it: entries
            invariant
                it.seq() == all,
                before == all.map_values(|e: NonceEntry| e@),
                open == (|e: SeenNonce|
                    window_open(e.timestamp as int, now as int, skew_secs as int)),
                kept@.map_values(|e: NonceEntry| e@) == before.take(it.index()).filter(open),
        {
            let ghost i = it.index();
            let ghost kept_before = kept@;
            let keep: bool = is_replayable(e.timestamp, now, skew_secs);
            proof {
                assert(e == all[i]);
                assert(before.take(i + 1).drop_last() =~= before.take(i));
                assert(before.take(i + 1).last() == e@);
                reveal(Seq::filter);
            }
            if keep {
                kept.push(e);
                assert(kept@.map_values(|e: NonceEntry| e@) =~= kept_before.map_values(
                    |e: NonceEntry| e@,
                ).push(e@));
            }
        }
        assert(before.take(before.len() as int) =~= before);
        self.entries = kept;
    }

    /// Whether a client's nonce is in the cache.
    fn contains(&self, client_id: &String, nonce: &String) -> (found: bool)
        ensures
            found == was_seen(self@, client_id@, nonce@),
    {
        let mut i: usize = 0;
        while i < self.entries.len()
            invariant
                i <= self.entries@.len(),
                forall|k: int|
                    0 <= k < i ==> !((#[trigger] self@[k]).client_id == client_id@ && self@[k].nonce
                        == nonce@),
            decreases self.entries.len() - i,
        {
            let e: &NonceEntry = &self.entries[i];
            assert(self@[i as int] == e@);
            if e.client_id == *client_id && e.nonce == *nonce {
                return true;
            }
            i = i + 1;
        }
        false
    }

    /// Evicts stale entries, then records the nonce unless the client has used it before
    /// or the cache is full.
    pub fn check_and_record(
        &mut self,
        presented: &PresentedClientAuth,
        now: i64,
        skew_secs: i64,
    ) -> (verdict: Admission)
        ensures
            verdict == admission(old(self)@, nonce_of(presented@), now as int, skew_secs as int),
            final(self)@ == entries_after(
                old(self)@,
                nonce_of(presented@),
                now as int,
                skew_secs as int,
            ),
            well_kept(old(self)@) ==> well_kept(final(self)@),
    {
        proof {
            if well_kept(self@) {
                well_kept_stays(self@, nonce_of(presented@), now as int, skew_secs as int);
            }
        }
        self.evict(now, skew_secs);
        if self.contains(&presented.client_id, &presented.nonce) {
            return Admission::Seen;
        }
        if self.entries.len() >= MAX_NONCE_ENTRIES {
            return Admission::Full;
        }
        let ghost before = self@;
        let entry = NonceEntry {
            client_id: presented.client_id.clone(),
            nonce: presented.nonce.clone(),
            timestamp: presented.timestamp,
        };
        let ghost recorded = entry@;
        self.entries.push(entry);
        assert(self@ =~= before.push(recorded));
        Admission::Recorded
    }
}

/// The nonce that a request brings.
pub open spec fn nonce_of(p: crate::types::Presented) -> SeenNonce {
    SeenNonce { client_id: p.client_id, nonce: p.nonce, timestamp: p.timestamp }
}

/// The live entries of one more entry.
proof fn live_of_push(seen: Seq<SeenNonce>, now: int, skew: int)
    requires
        seen.len() > 0,
    ensures
        live(seen, now, skew) == if window_open(seen.last().timestamp as int, now, skew) {
            live(seen.drop_last(), now, skew).push(seen.last())
        } else {
            live(seen.drop_last(), now, skew)
        },
{
    reveal(Seq::filter);
}

/// The live entries are those of the entries whose window is open.
pub proof fn live_entries(seen: Seq<SeenNonce>, now: int, skew: int)
    ensures
        live(seen, now, skew).len() <= seen.len(),
        forall|e: SeenNonce| #[trigger]
            live(seen, now, skew).contains(e) <==> seen.contains(e) && window_open(
                e.timestamp as int,
                now,
                skew,
            ),
    decreases seen.len(),
{
    if seen.len() > 0 {
        let rest = seen.drop_last();
        live_entries(rest, now, skew);
        live_of_push(seen, now, skew);
        assert(seen =~= rest.push(seen.last()));
        assert forall|e: SeenNonce| #[trigger]
            live(seen, now, skew).contains(e) <==> seen.contains(e) && window_open(
                e.timestamp as int,
                now,
                skew,
            ) by {
            push_contains(rest, seen.last(), e);
            push_contains(live(rest, now, skew), seen.last(), e);
        }
    } else {
        reveal(Seq::filter);
    }
}

/// A pushed sequence holds what it held, and the new entry.
proof fn push_contains(s: Seq<SeenNonce>, last: SeenNonce, e: SeenNonce)
    ensures
        s.push(last).contains(e) <==> s.contains(e) || e == last,
{
    if s.contains(e) {
        let i = choose|i: int| 0 <= i < s.len() && s[i] == e;
        assert(s.push(last)[i] == e);
    }
    assert(s.push(last)[s.len() as int] == last);
    if s.push(last).contains(e) && e != last {
        let i = choose|i: int| 0 <= i < s.push(last).len() && s.push(last)[i] == e;
        assert(s[i] == e);
    }
}

/// Eviction keeps a cache well kept.
proof fn live_well_kept(seen: Seq<SeenNonce>, now: int, skew: int)
    requires
        well_kept(seen),
    ensures
        well_kept(live(seen, now, skew)),
    decreases seen.len(),
{
    if seen.len() > 0 {
        let rest = seen.drop_last();
        let kept = live(rest, now, skew);
        live_well_kept(rest, now, skew);
        live_entries(rest, now, skew);
        live_of_push(seen, now, skew);
        assert forall|i: int| 0 <= i < kept.len() implies !((#[trigger] kept[i]).client_id
            == seen.last().client_id && kept[i].nonce == seen.last().nonce) by {
            assert(kept.contains(kept[i]));
            assert(rest.contains(kept[i]));
            let k = choose|k: int| 0 <= k < rest.len() && rest[k] == kept[i];
            assert(seen[k] == kept[i]);
            assert(seen[seen.len() - 1] == seen.last());
        }
    } else {
        reveal(Seq::filter);
    }
}

/// Putting a nonce to a well-kept cache leaves it well kept.
pub proof fn well_kept_stays(seen: Seq<SeenNonce>, entry: SeenNonce, now: int, skew: int)
    requires
        well_kept(seen),
    ensures
        well_kept(entries_after(seen, entry, now, skew)),
{
    live_well_kept(seen, now, skew);
}

/// The window is the closed interval from `now - skew` to `now + skew`: every timestamp in
/// it is in the window, before `now` or after it, and no other is. A window is open until
/// `skew` seconds after the timestamp, that second included.
pub proof fn window_is_an_interval(timestamp: int, now: int, skew: int)
    ensures
        in_window(timestamp, now, skew) <==> now - skew <= timestamp && timestamp <= now + skew,
        window_open(timestamp, now, skew) <==> now <= timestamp + skew,
{
}

/// The nonce of a request is told apart by its client id and nonce, and dated by its
/// timestamp.
pub proof fn nonce_of_request(p: crate::types::Presented)
    ensures
        nonce_of(p).client_id == p.client_id,
        nonce_of(p).nonce == p.nonce,
        nonce_of(p).timestamp == p.timestamp,
{
}

/// What the cache answers and what it holds afterwards. A nonce is seen if and only if an
/// entry with the same client id and nonce is at most `skew` seconds old. Of the others,
/// one is recorded if and only if fewer than a million entries are that young. Afterwards
/// the cache holds those entries in their order, and behind them what was recorded.
pub proof fn cache_answers(seen: Seq<SeenNonce>, entry: SeenNonce, now: int, skew: int)
    ensures
        ({
            let used = exists|i: int|
                0 <= i < seen.len() && (#[trigger] seen[i]).client_id == entry.client_id
                    && seen[i].nonce == entry.nonce && now - seen[i].timestamp <= skew;
            let young = seen.filter(|e: SeenNonce| now - e.timestamp <= skew);
            &&& admission(seen, entry, now, skew) == Admission::Seen <==> used
            &&& admission(seen, entry, now, skew) == Admission::Full <==> !used && young.len()
                >= 1_000_000
            &&& admission(seen, entry, now, skew) == Admission::Recorded <==> !used && young.len()
                < 1_000_000
            &&& entries_after(seen, entry, now, skew) == if !used && young.len() < 1_000_000 {
                young.push(entry)
            } else {
                young
            }
        }),
{
    let f = |e: SeenNonce| now - e.timestamp <= skew;
    let g = |e: SeenNonce| window_open(e.timestamp as int, now, skew);
    assert(f =~= g);
    let kept = live(seen, now, skew);
    live_entries(seen, now, skew);
    if was_seen(kept, entry.client_id, entry.nonce) {
        let k = choose|k: int|
            0 <= k < kept.len() && (#[trigger] kept[k]).client_id == entry.client_id
                && kept[k].nonce == entry.nonce;
        assert(kept.contains(kept[k]));
        assert(seen.contains(kept[k]));
        let i = choose|i: int| 0 <= i < seen.len() && seen[i] == kept[k];
        assert(seen[i].client_id == entry.client_id);
    }
    if exists|i: int|
        0 <= i < seen.len() && (#[trigger] seen[i]).client_id == entry.client_id && seen[i].nonce
            == entry.nonce && now - seen[i].timestamp <= skew {
        let i = choose|i: int|
            0 <= i < seen.len() && (#[trigger] seen[i]).client_id == entry.client_id
                && seen[i].nonce == entry.nonce && now - seen[i].timestamp <= skew;
        assert(seen.contains(seen[i]));
        assert(kept.contains(seen[i]));
        let k = choose|k: int| 0 <= k < kept.len() && kept[k] == seen[i];
        assert(kept[k].client_id == entry.client_id);
    }
}

} // verus!
