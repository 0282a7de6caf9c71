//! Duplicate suppression of outgoing messages by key: a key is pending while its send
//! runs, and after a successful send it is not admitted again within a time-to-live.
use vstd::prelude::*;
use vstd::string::*;
use crate::timestamp::now_ms;
use crate::text::owned;
use crate::vecmap::{has_key, insert_key, last_value, lookup, remove_key, retain_vec, without_key};

verus! {

/// Keys pending or recently sent.
pub struct DedupState {
    /// Keys whose send runs (set; the value is unused).
    pending: Vec<(String, ())>,
    /// key -> time (ms) of its last successful send.
    sent: Vec<(String, i64)>,
}

/// Predicate: a sent record is still within `ttl` at time `now`.
pub open spec fn within_ttl(now: i64, ttl: i64) -> spec_fn((String, i64)) -> bool {
    |e: (String, i64)| now - e.1 <= ttl
}

impl DedupState {
    /// Whether `k` is pending.
    pub closed spec fn is_pending(&self, k: Seq<char>) -> bool {
        has_key(self.pending@, k)
    }

    /// Time of the last successful send of `k`.
    pub closed spec fn sent_at(&self, k: Seq<char>) -> Option<i64> {
        last_value(self.sent@, k)
    }

    /// The sent records, oldest first.
    pub closed spec fn sent_table(&self) -> Seq<(String, i64)> {
        self.sent@
    }

    /// Whether `k` may be sent at time `now`: not pending, and not sent within `ttl`.
    pub open spec fn admits(&self, k: Seq<char>, ttl: i64, now: i64) -> bool {
        !self.is_pending(k) && !(self.sent_at(k) matches Some(ts) && now - ts <= ttl)
    }

    /// Nothing pending, nothing sent.
    pub fn new() -> (r: DedupState)
        ensures
            forall|k: Seq<char>| !r.is_pending(k) && r.sent_at(k) is None,
    {
        DedupState { pending: Vec::new(), sent: Vec::new() }
    }

    /// Checks at time `now` whether `dedup_key` may be sent and, if so, marks it pending.
    pub fn check_and_pend_at(&mut self, dedup_key: &str, ttl_ms: i64, now: i64) -> (r: bool)
        ensures
            r == old(self).admits(dedup_key@, ttl_ms, now),
            r ==> forall|k: Seq<char>| #[trigger] final(self).is_pending(k) == (k == dedup_key@ || old(self).is_pending(k)),
            r ==> final(self).sent_table() == old(self).sent_table(),
            !r ==> *final(self) == *old(self),
    {
        if lookup(&self.pending, dedup_key).is_some() {
            return false;
        }
        match lookup(&self.sent, dedup_key) {
            Some(ts) => {
                if (now as i128) - (ts as i128) <= (ttl_ms as i128) {
                    return false;
                }
            },
            None => {},
        }
        let ghost before = self.pending@;
        insert_key(&mut self.pending, owned(dedup_key), ());
        proof {
            assert forall|k: Seq<char>| #[trigger] self.is_pending(k) == (k == dedup_key@ || has_key(before, k)) by {
                let s: String = self.pending@.last().0;
                crate::vecmap::lemma_insert_key(before, s, (), k);
            }
        }
        true
    }

    /// Checks now (by the system clock) whether `dedup_key` may be sent; see
    /// `check_and_pend_at`.
    pub fn check_and_pend(&mut self, dedup_key: &str, ttl_ms: i64) -> (r: bool)
        ensures
            r ==> forall|k: Seq<char>| #[trigger] final(self).is_pending(k) == (k == dedup_key@ || old(self).is_pending(k)),
            !r ==> *final(self) == *old(self),
            old(self).is_pending(dedup_key@) ==> !r,
            exists|now: i64| r == #[trigger] old(self).admits(dedup_key@, ttl_ms, now),
    {
        let now = now_ms();
        self.check_and_pend_at(dedup_key, ttl_ms, now)
    }

    /// Records at time `now` that `dedup_key` was sent: no longer pending, sent at `now`.
    pub fn mark_sent_at(&mut self, dedup_key: &str, now: i64)
        ensures
            forall|k: Seq<char>| #[trigger] final(self).is_pending(k) == (k != dedup_key@ && old(self).is_pending(k)),
            final(self).sent_at(dedup_key@) == Some(now),
            forall|k: Seq<char>| k != dedup_key@ ==> #[trigger] final(self).sent_at(k) == old(self).sent_at(k),
    {
        let ghost before = self.pending@;
        let ghost sent_before = self.sent@;
        remove_key(&mut self.pending, dedup_key);
        insert_key(&mut self.sent, owned(dedup_key), now);
        proof {
            assert forall|k: Seq<char>| #[trigger] self.is_pending(k) == (k != dedup_key@ && has_key(before, k)) by {
                if k == dedup_key@ {
                    crate::vecmap::lemma_without_key_absent(before, k);
                } else {
                    crate::vecmap::lemma_without_key_other(before, dedup_key@, k);
                }
            }
            let s: String = self.sent@.last().0;
            crate::vecmap::lemma_insert_key(sent_before, s, now, dedup_key@);
            assert forall|k: Seq<char>| k != dedup_key@ implies #[trigger] self.sent_at(k) == last_value(sent_before, k) by {
                crate::vecmap::lemma_insert_key(sent_before, s, now, k);
            }
        }
    }

    /// Records now (by the system clock) that `dedup_key` was sent; see `mark_sent_at`.
    pub fn mark_sent(&mut self, dedup_key: &str)
        ensures
            forall|k: Seq<char>| #[trigger] final(self).is_pending(k) == (k != dedup_key@ && old(self).is_pending(k)),
            final(self).sent_at(dedup_key@) is Some,
            forall|k: Seq<char>| k != dedup_key@ ==> #[trigger] final(self).sent_at(k) == old(self).sent_at(k),
    {
        let now = now_ms();
        self.mark_sent_at(dedup_key, now);
    }

    /// Records that the send of `dedup_key` failed: no longer pending.
    pub fn clear_pending(&mut self, dedup_key: &str)
        ensures
            forall|k: Seq<char>| #[trigger] final(self).is_pending(k) == (k != dedup_key@ && old(self).is_pending(k)),
            final(self).sent_table() == old(self).sent_table(),
    {
        let ghost before = self.pending@;
        remove_key(&mut self.pending, dedup_key);
        proof {
            assert forall|k: Seq<char>| #[trigger] self.is_pending(k) == (k != dedup_key@ && has_key(before, k)) by {
                if k == dedup_key@ {
                    crate::vecmap::lemma_without_key_absent(before, k);
                } else {
                    crate::vecmap::lemma_without_key_other(before, dedup_key@, k);
                }
            }
        }
    }

    /// Drops the sent records older than `ttl_ms` at time `now_ms`.
    pub fn cleanup(&mut self, now_ms: i64, ttl_ms: i64)
        ensures
            final(self).sent_table() == old(self).sent_table().filter(within_ttl(now_ms, ttl_ms)),
            forall|k: Seq<char>| #[trigger] final(self).is_pending(k) == old(self).is_pending(k),
    {
        let keep = |e: &(String, i64)| -> (b: bool)
            ensures
                b == within_ttl(now_ms, ttl_ms)(*e),
            { (now_ms as i128) - (e.1 as i128) <= (ttl_ms as i128) };
        retain_vec(&mut self.sent, keep, Ghost(within_ttl(now_ms, ttl_ms)));
    }
}

impl DedupState {
    /// The deduplication request `action` at time `now` (ms), with its numeric answer:
    /// 0 checks `key` (time-to-live `arg1_ms`) and answers 1 when it may be sent (it is then
    /// pending), else 0 (an empty key answers 0); 1 records a successful send, 2 a failed
    /// one (nothing for an empty key), 3 drops the records older than `arg2_ms` at time
    /// `arg1_ms`; these answer 0. Another action answers -1 and changes nothing.
    pub fn apply_action(&mut self, action: i32, key: &str, arg1_ms: i64, arg2_ms: i64, now: i64) -> (r: i32)
        ensures
            action == 0 ==> (r == (if key@.len() > 0 && old(self).admits(key@, arg1_ms, now) { 1i32 } else { 0i32 })),
            action == 0 && r == 1 ==> forall|k: Seq<char>| #[trigger] final(self).is_pending(k) == (k == key@ || old(self).is_pending(k)),
            action == 0 && r == 0 ==> *final(self) == *old(self),
            action == 1 ==> r == 0 && (key@.len() > 0 ==> final(self).sent_at(key@) == Some(now)
                && forall|k: Seq<char>| #[trigger] final(self).is_pending(k) == (k != key@ && old(self).is_pending(k))),
            action == 1 && key@.len() == 0 ==> *final(self) == *old(self),
            action == 2 ==> r == 0 && (key@.len() > 0 ==> forall|k: Seq<char>| #[trigger] final(self).is_pending(k)
                == (k != key@ && old(self).is_pending(k))),
            action == 2 ==> final(self).sent_table() == old(self).sent_table(),
            action == 3 ==> r == 0 && final(self).sent_table() == old(self).sent_table().filter(within_ttl(arg1_ms, arg2_ms)),
            !(0 <= action <= 3) ==> r == -1 && *final(self) == *old(self),
    {
        if action == 0 {
            if key.is_empty() {
                return 0;
            }
            if self.check_and_pend_at(key, arg1_ms, now) { 1 } else { 0 }
        } else if action == 1 {
            if !key.is_empty() {
                self.mark_sent_at(key, now);
            }
            0
        } else if action == 2 {
            if !key.is_empty() {
                self.clear_pending(key);
            }
            0
        } else if action == 3 {
            self.cleanup(arg1_ms, arg2_ms);
            0
        } else {
            -1
        }
    }
}

/// Law: a pending key is never admitted, whatever the time.
pub proof fn law_pending_not_admitted(d: DedupState, k: Seq<char>, ttl: i64, now: i64)
    requires
        d.is_pending(k),
    ensures
        !d.admits(k, ttl, now),
{
}

/// Law: a key sent at `t` is not admitted again within the time-to-live.
pub proof fn law_sent_blocks_within_ttl(d: DedupState, k: Seq<char>, t: i64, ttl: i64, now: i64)
    requires
        d.sent_at(k) == Some(t),
        now - t <= ttl,
    ensures
        !d.admits(k, ttl, now),
{
}

/// Law: a key admitted at `t0` whose send then failed (the key cleared from pending, the sent
/// records untouched, as `check_and_pend_at` and `clear_pending` leave them) is admitted
/// again at any later time: a failed send may be retried.
pub proof fn law_cleared_key_admitted_again(before: DedupState, after: DedupState, k: Seq<char>, ttl: i64, t0: i64, now: i64)
    requires
        before.admits(k, ttl, t0),
        after.sent_table() == before.sent_table(),
        !after.is_pending(k),
        t0 <= now,
    ensures
        after.admits(k, ttl, now),
{
}

/// Law: a key neither pending nor ever sent is always admitted.
pub proof fn law_fresh_key_admitted(d: DedupState, k: Seq<char>, ttl: i64, now: i64)
    requires
        !d.is_pending(k),
        d.sent_at(k) is None,
    ensures
        d.admits(k, ttl, now),
{
}

} // verus!
