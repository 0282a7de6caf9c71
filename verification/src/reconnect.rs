//! Reconnection of paired devices that went silent: targets, attempt counting and
//! exponential back-off between attempts.
use vstd::prelude::*;
use vstd::string::*;
use crate::heartbeat::{HeartbeatState, recently_seen};
use crate::text::{owned, str_eq};

verus! {

/// Window (s) in which a heartbeat counts as online.
pub const RECENT_SEEN_SECS: i64 = 15;

/// A device to reconnect to.
pub struct ReconnectTarget {
    pub ip: String,
    /// Time (ms) of the last attempt, if any.
    pub last_attempt_ms: Option<u64>,
    /// Attempts made so far.
    pub attempts: u32,
}

/// Targets and settings of reconnection.
pub struct ReconnectState {
    targets: Vec<(String, ReconnectTarget)>,
    /// Base interval (s) between attempts.
    retry_interval_secs: u64,
    /// Largest number of attempts (0 = unlimited).
    max_retries: u32,
    running: bool,
}

/// What a round does with a target.
#[derive(Debug, Clone, Copy, PartialEq, Eq, Structural)]
pub enum TargetVerdict {
    /// Dropped: it is this device, it is online, or it ran out of attempts.
    Remove,
    /// Attempted now.
    Retry,
    /// Left for a later round.
    Wait,
}

/// Back-off (s) before the next attempt: `interval << min(attempts, 4)`, at most 60.
pub open spec fn backoff_secs(interval: u64, attempts: u32) -> u64 {
    let shift: u64 = if attempts < 4 { attempts as u64 } else { 4 };
    let b = interval << shift;
    if b < 60 {
        b
    } else {
        60
    }
}

/// The verdict of a round at `now_s` (s, for heartbeats) / `now_ms` (ms, for attempts) on
/// target `e`.
pub open spec fn verdict(
    e: (String, ReconnectTarget),
    local: Option<Seq<char>>,
    hb: Seq<(String, i64)>,
    now_s: i64,
    now_ms: u64,
    interval: u64,
    max_retries: u32,
) -> TargetVerdict {
    if local == Some(e.0@) {
        TargetVerdict::Remove
    } else if recently_seen(hb, e.0@, now_s, RECENT_SEEN_SECS) {
        TargetVerdict::Remove
    } else if max_retries > 0 && e.1.attempts >= max_retries {
        TargetVerdict::Remove
    } else {
        match e.1.last_attempt_ms {
            None => TargetVerdict::Retry,
            Some(t) => if (if now_ms >= t { (now_ms - t) as u64 } else { 0u64 }) / 1000 >= backoff_secs(interval, e.1.attempts) {
                TargetVerdict::Retry
            } else {
                TargetVerdict::Wait
            },
        }
    }
}

/// The id of a target and its view.
pub open spec fn target_view(e: (String, ReconnectTarget)) -> (Seq<char>, Seq<char>, Option<u64>, u32) {
    (e.0@, e.1.ip@, e.1.last_attempt_ms, e.1.attempts)
}

impl ReconnectState {
    /// The targets (id, address, last attempt, attempts), in insertion order.
    pub closed spec fn targets_view(&self) -> Seq<(Seq<char>, Seq<char>, Option<u64>, u32)> {
        self.targets@.map_values(|e: (String, ReconnectTarget)| target_view(e))
    }

    /// The raw targets.
    pub closed spec fn target_table(&self) -> Seq<(String, ReconnectTarget)> {
        self.targets@
    }

    /// Base interval (s).
    pub closed spec fn interval(&self) -> u64 {
        self.retry_interval_secs
    }

    /// Largest number of attempts (0 = unlimited).
    pub closed spec fn max_attempts(&self) -> u32 {
        self.max_retries
    }

    /// Whether the reconnection worker runs.
    pub closed spec fn is_running(&self) -> bool {
        self.running
    }

    /// Whether the reconnection worker runs.
    pub fn running(&self) -> (r: bool)
        ensures
            r == self.is_running(),
    {
        self.running
    }

    /// No target; 10 s base interval; unlimited attempts; not running.
    pub fn new() -> (r: ReconnectState)
        ensures
            r.targets_view().len() == 0,
            r.interval() == 10,
            r.max_attempts() == 0,
            !r.is_running(),
    {
        let r = ReconnectState { targets: Vec::new(), retry_interval_secs: 10, max_retries: 0, running: false };
        assert(r.targets_view() =~= Seq::empty());
        r
    }

    /// Index of the target `uuid`.
    fn position(&self, uuid: &str) -> (r: Option<usize>)
        ensures
            match r {
                Some(i) => i < self.targets@.len() && self.targets@[i as int].0@ == uuid@
                    && forall|j: int| 0 <= j < i ==> (#[trigger] self.targets@[j]).0@ != uuid@,
                None => forall|j: int| 0 <= j < self.targets@.len() ==> (#[trigger] self.targets@[j]).0@ != uuid@,
            },
    {
        let mut i: usize = 0;
        while i < self.targets.len()
            invariant
                i <= self.targets.len(),
                forall|j: int| 0 <= j < i ==> (#[trigger] self.targets@[j]).0@ != uuid@,
            decreases self.targets.len() - i,
        {
            if str_eq(self.targets[i].0.as_str(), uuid) {
                return Some(i);
            }
            i = i + 1;
        }
        None
    }

    /// Adds (or re-addresses) a target: a new target starts with no attempt; an existing one
    /// gets the new address, its last attempt forgotten and its attempt count kept.
    pub fn add_target(&mut self, uuid: &str, ip: &str)
        ensures
            final(self).interval() == old(self).interval(),
            final(self).max_attempts() == old(self).max_attempts(),
            final(self).is_running() == old(self).is_running(),
            ({
                let old_t = old(self).targets_view();
                let new_t = final(self).targets_view();
                if exists|j: int| 0 <= j < old_t.len() && (#[trigger] old_t[j]).0 == uuid@ {
                    let i = choose|i: int| 0 <= i < old_t.len() && (#[trigger] old_t[i]).0 == uuid@
                        && forall|j: int| 0 <= j < i ==> (#[trigger] old_t[j]).0 != uuid@;
                    new_t == old_t.update(i, (uuid@, ip@, None::<u64>, old_t[i].3))
                } else {
                    new_t == old_t.push((uuid@, ip@, None::<u64>, 0u32))
                }
            }),
    {
        let ghost old_t = self.targets_view();
        match self.position(uuid) {
            Some(i) => {
                let attempts = self.targets[i].1.attempts;
                let entry = (owned(uuid), ReconnectTarget { ip: owned(ip), last_attempt_ms: None, attempts });
                self.targets.set(i, entry);
                proof {
                    assert(old_t[i as int].0 == uuid@);
                    let k = choose|k: int| 0 <= k < old_t.len() && (#[trigger] old_t[k]).0 == uuid@
                        && forall|j: int| 0 <= j < k ==> (#[trigger] old_t[j]).0 != uuid@;
                    assert(0 <= i < old_t.len() && old_t[i as int].0 == uuid@
                        && forall|j: int| 0 <= j < i ==> (#[trigger] old_t[j]).0 != uuid@);
                    if k < i {
                        assert(old_t[k].0 != uuid@);
                    } else if k > i {
                        assert(old_t[i as int].0 != uuid@);
                    }
                    assert(self.targets_view() =~= old_t.update(i as int, (uuid@, ip@, None::<u64>, old_t[i as int].3)));
                }
            },
            None => {
                self.targets.push((owned(uuid), ReconnectTarget { ip: owned(ip), last_attempt_ms: None, attempts: 0 }));
                proof {
                    assert forall|j: int| 0 <= j < old_t.len() implies (#[trigger] old_t[j]).0 != uuid@ by {
                        assert(old_t[j].0 == old(self).targets@[j].0@);
                    }
                    assert(self.targets_view() =~= old_t.push((uuid@, ip@, None::<u64>, 0u32)));
                }
            },
        }
    }

    /// Drops the target `uuid` (connected, or given up).
    pub fn remove_target(&mut self, uuid: &str)
        ensures
            final(self).target_table() == old(self).target_table().filter(|e: (String, ReconnectTarget)| e.0@ != uuid@),
            final(self).interval() == old(self).interval(),
            final(self).max_attempts() == old(self).max_attempts(),
            final(self).is_running() == old(self).is_running(),
    {
        let ghost pred = |e: (String, ReconnectTarget)| e.0@ != uuid@;
        let keep = |e: &(String, ReconnectTarget)| -> (b: bool)
            ensures
                b == (e.0@ != uuid@),
            { !str_eq(e.0.as_str(), uuid) };
        crate::vecmap::retain_vec(&mut self.targets, keep, Ghost(pred));
    }

    /// Sets the base interval (s) and the largest number of attempts (0 = unlimited).
    pub fn configure(&mut self, interval_secs: u64, max_retries: u32)
        ensures
            final(self).interval() == interval_secs,
            final(self).max_attempts() == max_retries,
            final(self).target_table() == old(self).target_table(),
            final(self).is_running() == old(self).is_running(),
    {
        self.retry_interval_secs = interval_secs;
        self.max_retries = max_retries;
    }

    /// Marks the worker as running; answers whether it was not running before (and so has to
    /// be started).
    pub fn start(&mut self) -> (r: bool)
        ensures
            r == !old(self).is_running(),
            final(self).is_running(),
            final(self).target_table() == old(self).target_table(),
            final(self).interval() == old(self).interval(),
            final(self).max_attempts() == old(self).max_attempts(),
    {
        if self.running {
            return false;
        }
        self.running = true;
        true
    }

    /// Asks the worker to stop.
    pub fn stop(&mut self)
        ensures
            !final(self).is_running(),
            final(self).target_table() == old(self).target_table(),
    {
        self.running = false;
    }

    /// The verdict on target `e` in a round.
    fn judge(&self, e: &(String, ReconnectTarget), local_uuid: Option<&str>, heartbeat: &HeartbeatState, now_s: i64, now_ms: u64) -> (r: TargetVerdict)
        ensures
            r == verdict(*e, match local_uuid {
                Some(u) => Some(u@),
                None => None,
            }, heartbeat.last_seen@, now_s, now_ms, self.retry_interval_secs, self.max_retries),
    {
        let is_self = match local_uuid {
            Some(u) => str_eq(u, e.0.as_str()),
            None => false,
        };
        if is_self {
            return TargetVerdict::Remove;
        }
        if heartbeat.is_recently_seen(e.0.as_str(), now_s, RECENT_SEEN_SECS) {
            return TargetVerdict::Remove;
        }
        if self.max_retries > 0 && e.1.attempts >= self.max_retries {
            return TargetVerdict::Remove;
        }
        match e.1.last_attempt_ms {
            None => TargetVerdict::Retry,
            Some(t) => {
                let shift: u64 = if e.1.attempts < 4 { e.1.attempts as u64 } else { 4 };
                let b = self.retry_interval_secs << shift;
                let backoff = if b < 60 { b } else { 60 };
                let elapsed = if now_ms >= t { now_ms - t } else { 0 };
                if elapsed / 1000 >= backoff {
                    TargetVerdict::Retry
                } else {
                    TargetVerdict::Wait
                }
            },
        }
    }

    /// One reconnection round at `now_s` (s) / `now_ms` (ms). Targets that are this device,
    /// are online (no stale heartbeat), or ran out of attempts are dropped; targets whose
    /// back-off has passed (or never attempted) are attempted: their attempt count grows by
    /// one (saturating) and they are answered as (id, address), in order.
    pub fn plan_round(&mut self, local_uuid: Option<&str>, heartbeat: &HeartbeatState, now_s: i64, now_ms: u64) -> (r: Vec<(String, String)>)
        ensures
            ({
                let local = match local_uuid {
                    Some(u) => Some(u@),
                    None => None,
                };
                let v = |e: (String, ReconnectTarget)| verdict(e, local, heartbeat.last_seen@, now_s, now_ms, old(self).interval(), old(self).max_attempts());
                &&& r@.map_values(|p: (String, String)| (p.0@, p.1@)) == old(self).target_table().filter(|e: (String, ReconnectTarget)| v(e) == TargetVerdict::Retry)
                        .map_values(|e: (String, ReconnectTarget)| (e.0@, e.1.ip@))
                &&& final(self).targets_view() == old(self).target_table().filter(|e: (String, ReconnectTarget)| v(e) != TargetVerdict::Remove)
                        .map_values(|e: (String, ReconnectTarget)| if v(e) == TargetVerdict::Retry {
                            (e.0@, e.1.ip@, e.1.last_attempt_ms, if e.1.attempts < u32::MAX { (e.1.attempts + 1) as u32 } else { e.1.attempts })
                        } else {
                            target_view(e)
                        })
            }),
            final(self).interval() == old(self).interval(),
            final(self).max_attempts() == old(self).max_attempts(),
            final(self).is_running() == old(self).is_running(),
    {
        let ghost local = match local_uuid {
            Some(u) => Some(u@),
            None => None::<Seq<char>>,
        };
        let ghost old_t = self.targets@;
        let ghost v = |e: (String, ReconnectTarget)| verdict(e, local, heartbeat.last_seen@, now_s, now_ms, self.retry_interval_secs, self.max_retries);
        let ghost is_retry = |e: (String, ReconnectTarget)| v(e) == TargetVerdict::Retry;
        let ghost kept = |e: (String, ReconnectTarget)| v(e) != TargetVerdict::Remove;
        let ghost after = |e: (String, ReconnectTarget)| if v(e) == TargetVerdict::Retry {
            (e.0@, e.1.ip@, e.1.last_attempt_ms, if e.1.attempts < u32::MAX { (e.1.attempts + 1) as u32 } else { e.1.attempts })
        } else {
            target_view(e)
        };
        let mut out: Vec<(String, String)> = Vec::new();
        let mut next: Vec<(String, ReconnectTarget)> = Vec::new();
        let mut i: usize = 0;
        assert(old_t.take(0).filter(is_retry) =~= Seq::<(String, ReconnectTarget)>::empty()) by {
            reveal(Seq::filter);
        }
        assert(old_t.take(0).filter(kept) =~= Seq::<(String, ReconnectTarget)>::empty()) by {
            reveal(Seq::filter);
        }
        assert(out@.map_values(|p: (String, String)| (p.0@, p.1@)) =~= old_t.take(0).filter(is_retry).map_values(|e: (String, ReconnectTarget)| (e.0@, e.1.ip@)));
        assert(next@.map_values(|e: (String, ReconnectTarget)| target_view(e)) =~= old_t.take(0).filter(kept).map_values(after));
        while i < self.targets.len()
            invariant
                i <= self.targets.len(),
                self.targets@ == old_t,
                self.retry_interval_secs == old(self).retry_interval_secs,
                self.max_retries == old(self).max_retries,
                self.running == old(self).running,
                old_t == old(self).targets@,
                v == (|e: (String, ReconnectTarget)| verdict(e, local, heartbeat.last_seen@, now_s, now_ms, self.retry_interval_secs, self.max_retries)),
                is_retry == (|e: (String, ReconnectTarget)| v(e) == TargetVerdict::Retry),
                kept == (|e: (String, ReconnectTarget)| v(e) != TargetVerdict::Remove),
                after == (|e: (String, ReconnectTarget)| if v(e) == TargetVerdict::Retry {
                    (e.0@, e.1.ip@, e.1.last_attempt_ms, if e.1.attempts < u32::MAX { (e.1.attempts + 1) as u32 } else { e.1.attempts })
                } else {
                    target_view(e)
                }),
                local == (match local_uuid {
                    Some(u) => Some(u@),
                    None => None::<Seq<char>>,
                }),
                out@.map_values(|p: (String, String)| (p.0@, p.1@)) == old_t.take(i as int).filter(is_retry).map_values(|e: (String, ReconnectTarget)| (e.0@, e.1.ip@)),
                next@.map_values(|e: (String, ReconnectTarget)| target_view(e)) == old_t.take(i as int).filter(kept).map_values(after),
            decreases self.targets.len() - i,
        {
            let ghost e = old_t[i as int];
            let ghost prev_out = out@;
            let ghost prev_next = next@;
            proof {
                assert(old_t.take(i + 1) =~= old_t.take(i as int).push(e));
                old_t.take(i as int).lemma_filter_push(e, is_retry);
                old_t.take(i as int).lemma_filter_push(e, kept);
            }
            let verdict_now = self.judge(&self.targets[i], local_uuid, heartbeat, now_s, now_ms);
            assert(self.targets@[i as int] == e);
            assert(verdict_now == v(e));
            match verdict_now {
                TargetVerdict::Remove => {},
                TargetVerdict::Retry => {
                    let t = &self.targets[i];
                    out.push((t.0.clone(), t.1.ip.clone()));
                    let attempts = if t.1.attempts < u32::MAX { t.1.attempts + 1 } else { t.1.attempts };
                    next.push((t.0.clone(), ReconnectTarget { ip: t.1.ip.clone(), last_attempt_ms: t.1.last_attempt_ms, attempts }));
                    proof {
                        assert(out@.map_values(|p: (String, String)| (p.0@, p.1@)) =~= prev_out.map_values(|p: (String, String)| (p.0@, p.1@)).push((e.0@, e.1.ip@)));
                        assert(next@.map_values(|e: (String, ReconnectTarget)| target_view(e)) =~= prev_next.map_values(|e: (String, ReconnectTarget)| target_view(e)).push(after(e)));
                        assert(old_t.take(i as int).filter(is_retry).push(e).map_values(|e: (String, ReconnectTarget)| (e.0@, e.1.ip@))
                            =~= old_t.take(i as int).filter(is_retry).map_values(|e: (String, ReconnectTarget)| (e.0@, e.1.ip@)).push((e.0@, e.1.ip@)));
                        assert(old_t.take(i as int).filter(kept).push(e).map_values(after)
                            =~= old_t.take(i as int).filter(kept).map_values(after).push(after(e)));
                    }
                },
                TargetVerdict::Wait => {
                    let t = &self.targets[i];
                    next.push((t.0.clone(), ReconnectTarget { ip: t.1.ip.clone(), last_attempt_ms: t.1.last_attempt_ms, attempts: t.1.attempts }));
                    proof {
                        assert(next@.map_values(|e: (String, ReconnectTarget)| target_view(e)) =~= prev_next.map_values(|e: (String, ReconnectTarget)| target_view(e)).push(after(e)));
                        assert(old_t.take(i as int).filter(kept).push(e).map_values(after)
                            =~= old_t.take(i as int).filter(kept).map_values(after).push(after(e)));
                    }
                },
            }
            i = i + 1;
        }
        assert(old_t.take(i as int) =~= old_t);
        self.targets = next;
        out
    }

    /// Records an attempt on `uuid` at time `now_ms`.
    pub fn record_attempt(&mut self, uuid: &str, now_ms: u64)
        ensures
            final(self).interval() == old(self).interval(),
            final(self).max_attempts() == old(self).max_attempts(),
            final(self).is_running() == old(self).is_running(),
            final(self).targets_view().len() == old(self).targets_view().len(),
            forall|j: int| 0 <= j < old(self).targets_view().len() ==> #[trigger] final(self).targets_view()[j] == {
                let e = old(self).targets_view()[j];
                if e.0 == uuid@ && forall|k: int| 0 <= k < j ==> (#[trigger] old(self).targets_view()[k]).0 != uuid@ {
                    (e.0, e.1, Some(now_ms), e.3)
                } else {
                    e
                }
            },
    {
        let ghost old_t = self.targets_view();
        match self.position(uuid) {
            Some(i) => {
                let t = &self.targets[i];
                let entry = (t.0.clone(), ReconnectTarget { ip: t.1.ip.clone(), last_attempt_ms: Some(now_ms), attempts: t.1.attempts });
                self.targets.set(i, entry);
                proof {
                    assert forall|j: int| 0 <= j < old_t.len() implies #[trigger] self.targets_view()[j] == {
                        let e = old_t[j];
                        if e.0 == uuid@ && forall|k: int| 0 <= k < j ==> (#[trigger] old_t[k]).0 != uuid@ {
                            (e.0, e.1, Some(now_ms), e.3)
                        } else {
                            e
                        }
                    } by {
                        if j < i {
                            assert(old_t[j].0 != uuid@);
                        } else if j > i {
                            assert(old_t[i as int].0 == uuid@);
                        }
                    }
                }
            },
            None => {
                proof {
                    assert forall|j: int| 0 <= j < old_t.len() implies (#[trigger] old_t[j]).0 != uuid@ by {
                        assert(old_t[j].0 == self.targets@[j].0@);
                    }
                }
            },
        }
    }

    /// Seconds to the next round: 30 without targets, else 10.
    pub fn round_interval_secs(&self) -> (r: u64)
        ensures
            r == (if self.targets_view().len() == 0 { 30u64 } else { 10u64 }),
    {
        if self.targets.len() == 0 { 30 } else { 10 }
    }
}

impl Default for ReconnectState {
    fn default() -> (r: ReconnectState)
        ensures
            r.targets_view().len() == 0,
            r.interval() == 10,
            r.max_attempts() == 0,
            !r.is_running(),
    {
        ReconnectState::new()
    }
}

/// Law: the back-off never exceeds 60 s, and grows with the attempts up to four.
pub proof fn law_backoff_capped(interval: u64, attempts: u32)
    ensures
        backoff_secs(interval, attempts) <= 60,
        attempts >= 4 ==> backoff_secs(interval, attempts) == backoff_secs(interval, 4),
{
}

/// Law: a target that reached the attempt limit is dropped, whatever else holds.
pub proof fn law_exhausted_dropped(
    e: (String, ReconnectTarget),
    local: Option<Seq<char>>,
    hb: Seq<(String, i64)>,
    now_s: i64,
    now_ms: u64,
    interval: u64,
    max_retries: u32,
)
    requires
        max_retries > 0,
        e.1.attempts >= max_retries,
    ensures
        verdict(e, local, hb, now_s, now_ms, interval, max_retries) == TargetVerdict::Remove,
{
}

/// Law: a never-attempted target that is neither this device nor online is attempted at
/// once.
pub proof fn law_first_attempt_immediate(
    e: (String, ReconnectTarget),
    local: Option<Seq<char>>,
    hb: Seq<(String, i64)>,
    now_s: i64,
    now_ms: u64,
    interval: u64,
)
    requires
        local != Some(e.0@),
        !recently_seen(hb, e.0@, now_s, RECENT_SEEN_SECS),
        e.1.last_attempt_ms is None,
    ensures
        verdict(e, local, hb, now_s, now_ms, interval, 0) == TargetVerdict::Retry,
{
}

} // verus!
