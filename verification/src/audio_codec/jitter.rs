//! Jitter buffer of audio packets: packets are kept by sequence number for at most
//! `DEFAULT_JITTER_DEPTH_MS`, and handed out in sequence order, reporting gaps.
use vstd::prelude::*;
use crate::timestamp::{elapsed_ns, instant_now};

verus! {

/// How long (ms) a packet waits at most.
pub const DEFAULT_JITTER_DEPTH_MS: u64 = 100;

/// How long (ns) a packet waits at most.
pub const DEFAULT_JITTER_DEPTH_NS: u64 = 100_000_000;

/// Packets by sequence number, with their arrival time (ns on the buffer's monotonic clock).
pub struct JitterBuffer {
    /// (sequence, data, arrival), sorted by sequence.
    packets: Vec<(u16, Vec<u8>, u64)>,
    last_seq: Option<u16>,
    jitter_depth_ns: u64,
    /// Start of the buffer's own monotonic clock; times are milliseconds since it.
    origin: std::time::Instant,
}

/// Strictly increasing sequence numbers.
pub open spec fn sorted_packets(s: Seq<(u16, Vec<u8>, u64)>) -> bool {
    forall|i: int, j: int| 0 <= i < j < s.len() ==> (#[trigger] s[i]).0 < (#[trigger] s[j]).0
}

/// Predicate: a packet that arrived at most `depth` ns before `now`.
pub open spec fn fresh_at(now: u64, depth: u64) -> spec_fn((u16, Vec<u8>, u64)) -> bool {
    |e: (u16, Vec<u8>, u64)| (if now >= e.2 { (now - e.2) as u64 } else { 0u64 }) <= depth
}

/// `p` splits `s` into the packets below `k` and those above it.
pub open spec fn splits_at(s: Seq<(u16, Vec<u8>, u64)>, k: u16, p: int) -> bool {
    0 <= p <= s.len()
        && (forall|j: int| 0 <= j < p ==> (#[trigger] s[j]).0 < k)
        && (forall|j: int| p <= j < s.len() ==> (#[trigger] s[j]).0 > k)
}

/// Where a packet with sequence `k` belongs in `s` (not holding `k`).
pub open spec fn insert_pos(s: Seq<(u16, Vec<u8>, u64)>, k: u16) -> int {
    choose|p: int| #[trigger] splits_at(s, k, p)
}

/// `s` with the packet `(k, d, t)` stored: replacing the packet `k` if present, else at its
/// sorted place.
pub open spec fn placed(s: Seq<(u16, Vec<u8>, u64)>, k: u16, d: Vec<u8>, t: u64) -> Seq<(u16, Vec<u8>, u64)> {
    if exists|i: int| 0 <= i < s.len() && (#[trigger] s[i]).0 == k {
        s.update(choose|i: int| 0 <= i < s.len() && (#[trigger] s[i]).0 == k, (k, d, t))
    } else {
        s.insert(insert_pos(s, k), (k, d, t))
    }
}

/// The sequence number to hand out next: after the last one handed out, else the smallest
/// held.
pub open spec fn next_seq(last: Option<u16>, s: Seq<(u16, Vec<u8>, u64)>) -> Option<u16> {
    match last {
        Some(l) => Some(if l == u16::MAX { 0u16 } else { (l + 1) as u16 }),
        None => if s.len() > 0 { Some(s[0].0) } else { None },
    }
}

/// A filtered sorted sequence stays sorted.
pub proof fn lemma_filter_sorted(s: Seq<(u16, Vec<u8>, u64)>, p: spec_fn((u16, Vec<u8>, u64)) -> bool)
    requires
        sorted_packets(s),
    ensures
        sorted_packets(s.filter(p)),
    decreases s.len(),
{
    if s.len() > 0 {
        let r = s.drop_last();
        assert(sorted_packets(r)) by {
            assert forall|i: int, j: int| 0 <= i < j < r.len() implies (#[trigger] r[i]).0 < (#[trigger] r[j]).0 by {
                assert(r[i] == s[i] && r[j] == s[j]);
            }
        }
        lemma_filter_sorted(r, p);
        crate::vecmap::lemma_filter_step(s, p);
        if p(s.last()) {
            let f = r.filter(p);
            let g = s.filter(p);
            assert forall|i: int, j: int| 0 <= i < j < g.len() implies (#[trigger] g[i]).0 < (#[trigger] g[j]).0 by {
                if j == g.len() - 1 {
                    assert(g[i] == f[i]);
                    assert(f.contains(f[i]));
                    r.lemma_filter_contains_rev(p, f[i]);
                    let k = choose|k: int| 0 <= k < r.len() && r[k] == f[i];
                    assert(r[k] == s[k]);
                    assert(s[k].0 < s[s.len() - 1].0);
                } else {
                    assert(g[i] == f[i] && g[j] == f[j]);
                }
            }
        }
    }
}

/// What handing out the next packet at `now` does to a buffer (`before` to `after`),
/// answering `r`: old packets are dropped, then the packet that follows the last one handed
/// out (the smallest held, at first) is handed out if it is there.
pub open spec fn pop_post(before: JitterBuffer, after: JitterBuffer, now: u64, r: Option<Vec<u8>>) -> bool {
    let s = before.packets_spec().filter(fresh_at(now, before.depth_spec()));
    match next_seq(before.last_spec(), s) {
        None => r is None && after.packets_spec() == s && after.last_spec() == before.last_spec(),
        Some(n) => if exists|i: int| 0 <= i < s.len() && (#[trigger] s[i]).0 == n {
            let i = choose|i: int| 0 <= i < s.len() && (#[trigger] s[i]).0 == n;
            &&& r == Some(s[i].1)
            &&& after.packets_spec() == s.remove(i)
            &&& after.last_spec() == Some(n)
        } else {
            r is None && after.packets_spec() == s && after.last_spec() == before.last_spec()
        },
    }
}

/// What handing out the next packet at `now`, skipping a short gap, does to a buffer
/// (`before` to `after`), answering `r` (see `pop_with_gap_at`).
pub open spec fn pop_gap_post(before: JitterBuffer, after: JitterBuffer, now: u64, r: (Option<Vec<u8>>, u64)) -> bool {
    let s = before.packets_spec().filter(fresh_at(now, before.depth_spec()));
    if s.len() == 0 {
        r == (None::<Vec<u8>>, 0u64) && after.packets_spec() == s && after.last_spec() == before.last_spec()
    } else {
        let n = next_seq(before.last_spec(), s)->0;
        if exists|i: int| 0 <= i < s.len() && (#[trigger] s[i]).0 == n {
            let i = choose|i: int| 0 <= i < s.len() && (#[trigger] s[i]).0 == n;
            &&& r == (Some(s[i].1), 0u64)
            &&& after.packets_spec() == s.remove(i)
            &&& after.last_spec() == Some(n)
        } else {
            let first = s[0].0;
            let gap: u16 = if first >= n { (first - n) as u16 } else { (first + 65536 - n) as u16 };
            &&& after.packets_spec() == s
            &&& if 0 < gap < 1000 {
                r == (None::<Vec<u8>>, gap as u64)
                    && after.last_spec() == Some(if first == 0 { u16::MAX } else { (first - 1) as u16 })
            } else {
                r == (None::<Vec<u8>>, 0u64) && after.last_spec() == before.last_spec()
            }
        }
    }
}

impl JitterBuffer {
    /// The held packets, sorted by sequence.
    pub closed spec fn packets_spec(&self) -> Seq<(u16, Vec<u8>, u64)> {
        self.packets@
    }

    /// The last sequence number handed out (or skipped to).
    pub closed spec fn last_spec(&self) -> Option<u16> {
        self.last_seq
    }

    /// How long (ns) a packet waits at most.
    pub closed spec fn depth_spec(&self) -> u64 {
        self.jitter_depth_ns
    }

    /// Well-formed: packets sorted by sequence.
    pub open spec fn wf(&self) -> bool {
        sorted_packets(self.packets_spec())
    }

    /// An empty buffer with the default depth.
    pub fn new() -> (r: JitterBuffer)
        ensures
            r.wf(),
            r.packets_spec().len() == 0,
            r.last_spec() is None,
            r.depth_spec() == DEFAULT_JITTER_DEPTH_NS,
    {
        JitterBuffer { packets: Vec::new(), last_seq: None, jitter_depth_ns: DEFAULT_JITTER_DEPTH_NS, origin: instant_now() }
    }

    /// Drops the packets older than the depth at time `now`.
    fn cleanup(&mut self, now: u64)
        requires
            old(self).wf(),
        ensures
            final(self).wf(),
            final(self).packets_spec() == old(self).packets_spec().filter(fresh_at(now, old(self).depth_spec())),
            final(self).last_spec() == old(self).last_spec(),
            final(self).depth_spec() == old(self).depth_spec(),
    {
        let depth = self.jitter_depth_ns;
        let keep = |e: &(u16, Vec<u8>, u64)| -> (b: bool)
            ensures
                b == fresh_at(now, depth)(*e),
            { (if now >= e.2 { now - e.2 } else { 0 }) <= depth };
        proof {
            lemma_filter_sorted(self.packets@, fresh_at(now, depth));
        }
        crate::vecmap::retain_vec(&mut self.packets, keep, Ghost(fresh_at(now, depth)));
    }

    /// Index of the packet `k`, if held.
    fn slot(&self, k: u16) -> (r: Option<usize>)
        requires
            self.wf(),
        ensures
            match r {
                Some(i) => i < self.packets@.len() && self.packets@[i as int].0 == k,
                None => forall|j: int| 0 <= j < self.packets@.len() ==> (#[trigger] self.packets@[j]).0 != k,
            },
    {
        let mut i: usize = 0;
        while i < self.packets.len()
            invariant
                i <= self.packets.len(),
                forall|j: int| 0 <= j < i ==> (#[trigger] self.packets@[j]).0 != k,
            decreases self.packets.len() - i,
        {
            if self.packets[i].0 == k {
                return Some(i);
            }
            i = i + 1;
        }
        None
    }

    /// Stores packet `seq` arrived at time `now` (replacing an earlier one with that number),
    /// then drops the packets older than the depth.
    pub fn push_at(&mut self, seq: u16, data: Vec<u8>, now: u64)
        requires
            old(self).wf(),
        ensures
            final(self).wf(),
            final(self).packets_spec() == placed(old(self).packets_spec(), seq, data, now).filter(fresh_at(now, old(self).depth_spec())),
            final(self).last_spec() == old(self).last_spec(),
            final(self).depth_spec() == old(self).depth_spec(),
    {
        let ghost s = self.packets@;
        let ghost d = data;
        match self.slot(seq) {
            Some(i) => {
                proof {
                    let c = choose|c: int| 0 <= c < s.len() && (#[trigger] s[c]).0 == seq;
                    if c != i {
                        if c < i {
                            assert(s[c].0 < s[i as int].0);
                        } else {
                            assert(s[i as int].0 < s[c].0);
                        }
                    }
                }
                self.packets.set(i, (seq, data, now));
                proof {
                    assert(self.packets@ =~= placed(s, seq, d, now));
                    assert(sorted_packets(self.packets@)) by {
                        assert forall|a: int, b: int| 0 <= a < b < self.packets@.len() implies (#[trigger] self.packets@[a]).0 < (#[trigger] self.packets@[b]).0 by {
                            assert(self.packets@[a].0 == s[a].0);
                            assert(self.packets@[b].0 == s[b].0);
                        }
                    }
                }
            },
            None => {
                let mut p: usize = 0;
                while p < self.packets.len() && self.packets[p].0 < seq
                    invariant
                        p <= self.packets.len(),
                        self.packets@ == s,
                        sorted_packets(s),
                        forall|j: int| 0 <= j < p ==> (#[trigger] s[j]).0 < seq,
                    decreases self.packets.len() - p,
                {
                    p = p + 1;
                }
                proof {
                    assert forall|j: int| p <= j < s.len() implies (#[trigger] s[j]).0 > seq by {
                        assert(s[p as int].0 >= seq);
                        assert(s[p as int].0 != seq);
                        if j > p {
                            assert(s[p as int].0 < s[j].0);
                        }
                    }
                    assert(splits_at(s, seq, p as int));
                    let q = insert_pos(s, seq);
                    if q < p {
                        assert(s[q].0 > seq);
                    } else if q > p {
                        assert(s[p as int].0 < seq);
                    }
                }
                self.packets.insert(p, (seq, data, now));
                proof {
                    assert(self.packets@ =~= placed(s, seq, d, now));
                    let t = self.packets@;
                    assert(sorted_packets(t)) by {
                        assert forall|a: int, b: int| 0 <= a < b < t.len() implies (#[trigger] t[a]).0 < (#[trigger] t[b]).0 by {
                            if b < p {
                                assert(t[a] == s[a] && t[b] == s[b]);
                            } else if b == p {
                                assert(t[a] == s[a]);
                            } else if a < p {
                                assert(t[a] == s[a] && t[b] == s[b - 1]);
                            } else if a == p {
                                assert(t[b] == s[b - 1]);
                            } else {
                                assert(t[a] == s[a - 1] && t[b] == s[b - 1]);
                            }
                        }
                    }
                }
            },
        }
        self.cleanup(now);
    }

    /// Stores packet `seq` now (by the system clock); see `push_at`.
    pub fn push(&mut self, seq: u16, data: Vec<u8>)
        requires
            old(self).wf(),
        ensures
            final(self).wf(),
            final(self).last_spec() == old(self).last_spec(),
            final(self).depth_spec() == old(self).depth_spec(),
            exists|now: u64| final(self).packets_spec()
                == #[trigger] placed(old(self).packets_spec(), seq, data, now).filter(fresh_at(now, old(self).depth_spec())),
    {
        let now = self.clock_ns();
        self.push_at(seq, data, now);
    }

    /// At time `now`: drops old packets, then hands out the packet that follows the last one
    /// handed out (the smallest held, at first) if it is there.
    pub fn pop_at(&mut self, now: u64) -> (r: Option<Vec<u8>>)
        requires
            old(self).wf(),
        ensures
            final(self).wf(),
            final(self).depth_spec() == old(self).depth_spec(),
            pop_post(*old(self), *final(self), now, r),
    {
        self.cleanup(now);
        let next = match self.last_seq {
            Some(l) => if l == u16::MAX { 0 } else { l + 1 },
            None => {
                if self.packets.len() > 0 {
                    self.packets[0].0
                } else {
                    return None;
                }
            },
        };
        self.take_seq(next)
    }

    /// Takes the packet `n` out, if held, and makes `n` the last handed out.
    fn take_seq(&mut self, n: u16) -> (r: Option<Vec<u8>>)
        requires
            old(self).wf(),
        ensures
            final(self).wf(),
            final(self).depth_spec() == old(self).depth_spec(),
            ({
                let s = old(self).packets_spec();
                if exists|i: int| 0 <= i < s.len() && (#[trigger] s[i]).0 == n {
                    let i = choose|i: int| 0 <= i < s.len() && (#[trigger] s[i]).0 == n;
                    &&& r == Some(s[i].1)
                    &&& final(self).packets_spec() == s.remove(i)
                    &&& final(self).last_spec() == Some(n)
                } else {
                    r is None && final(self).packets_spec() == s && final(self).last_spec() == old(self).last_spec()
                }
            }),
    {
        let ghost s = self.packets@;
        match self.slot(n) {
            Some(i) => {
                proof {
                    let c = choose|c: int| 0 <= c < s.len() && (#[trigger] s[c]).0 == n;
                    if c < i {
                        assert(s[c].0 < s[i as int].0);
                    } else if c > i {
                        assert(s[i as int].0 < s[c].0);
                    }
                }
                let e = self.packets.remove(i);
                self.last_seq = Some(n);
                proof {
                    let t = self.packets@;
                    assert(t =~= s.remove(i as int));
                    assert(sorted_packets(t)) by {
                        assert forall|a: int, b: int| 0 <= a < b < t.len() implies (#[trigger] t[a]).0 < (#[trigger] t[b]).0 by {
                            if b < i {
                                assert(t[a] == s[a] && t[b] == s[b]);
                            } else if a < i {
                                assert(t[a] == s[a] && t[b] == s[b + 1]);
                            } else {
                                assert(t[a] == s[a + 1] && t[b] == s[b + 1]);
                            }
                        }
                    }
                }
                Some(e.1)
            },
            None => None,
        }
    }

    /// Hands out the next packet now (by the system clock); see `pop_at`.
    pub fn pop(&mut self) -> (r: Option<Vec<u8>>)
        requires
            old(self).wf(),
        ensures
            final(self).wf(),
            final(self).depth_spec() == old(self).depth_spec(),
            exists|now: u64| #[trigger] pop_post(*old(self), *final(self), now, r),
    {
        let now = self.clock_ns();
        self.pop_at(now)
    }

    /// At time `now`: like `pop_at`, but when the next packet is missing and the smallest
    /// held one is ahead by a gap `g` with `0 < g < 1000` (sequence numbers wrap), the gap is
    /// skipped (the packet before the smallest held counts as handed out) and reported as
    /// `(None, g)`. Answers `(None, 0)` otherwise.
    pub fn pop_with_gap_at(&mut self, now: u64) -> (r: (Option<Vec<u8>>, u64))
        requires
            old(self).wf(),
        ensures
            final(self).wf(),
            final(self).depth_spec() == old(self).depth_spec(),
            pop_gap_post(*old(self), *final(self), now, r),
    {
        self.cleanup(now);
        if self.packets.len() == 0 {
            return (None, 0);
        }
        let next = match self.last_seq {
            Some(l) => if l == u16::MAX { 0 } else { l + 1 },
            None => self.packets[0].0,
        };
        match self.take_seq(next) {
            Some(d) => (Some(d), 0),
            None => {
                let first = self.packets[0].0;
                let gap: u16 = if first >= next { first - next } else { ((first as u32 + 65536 - next as u32) as u16) };
                if 0 < gap && gap < 1000 {
                    self.last_seq = Some(if first == 0 { u16::MAX } else { first - 1 });
                    (None, gap as u64)
                } else {
                    (None, 0)
                }
            },
        }
    }

    /// `pop_with_gap_at` now (by the system clock).
    pub fn pop_with_gap(&mut self) -> (r: (Option<Vec<u8>>, u64))
        requires
            old(self).wf(),
        ensures
            final(self).wf(),
            final(self).depth_spec() == old(self).depth_spec(),
            exists|now: u64| #[trigger] pop_gap_post(*old(self), *final(self), now, r),
    {
        let now = self.clock_ns();
        self.pop_with_gap_at(now)
    }

    /// Nanoseconds since the buffer was made, by the monotonic clock: the time base of the
    /// arrival times that `push`, `pop` and `pop_with_gap` use.
    pub fn clock_ns(&self) -> (r: u64) {
        elapsed_ns(&self.origin)
    }

    /// Number of held packets.
    pub fn len(&self) -> (r: usize)
        ensures
            r == self.packets_spec().len(),
    {
        self.packets.len()
    }

    /// Whether no packet is held.
    pub fn is_empty(&self) -> (r: bool)
        ensures
            r == (self.packets_spec().len() == 0),
    {
        self.packets.len() == 0
    }

    /// Drops every packet and forgets the last sequence number.
    pub fn reset(&mut self)
        ensures
            final(self).wf(),
            final(self).packets_spec().len() == 0,
            final(self).last_spec() is None,
            final(self).depth_spec() == old(self).depth_spec(),
    {
        self.packets.clear();
        self.last_seq = None;
    }
}

/// Law: a packet handed out is followed by the packet with the next sequence number
/// (wrapping after 65535).
pub proof fn law_next_follows_last(l: u16, s: Seq<(u16, Vec<u8>, u64)>)
    ensures
        next_seq(Some(l), s) == Some(if l == 65535 { 0u16 } else { (l + 1) as u16 }),
{
}

/// The packets of `b` still fresh at `now`.
pub open spec fn fresh_packets(b: JitterBuffer, now: u64) -> Seq<(u16, Vec<u8>, u64)> {
    b.packets_spec().filter(fresh_at(now, b.depth_spec()))
}

/// The sequence number after `l` (wrapping after 65535).
pub open spec fn seq_after(l: u16) -> u16 {
    if l == u16::MAX { 0u16 } else { (l + 1) as u16 }
}

/// Law: with no packet handed out yet (a new or reset buffer), a pop hands out the smallest
/// fresh packet and continues from it.
pub proof fn law_first_pop_takes_smallest(b: JitterBuffer, a: JitterBuffer, now: u64, r: Option<Vec<u8>>)
    requires
        b.wf(),
        b.last_spec() is None,
        fresh_packets(b, now).len() > 0,
        pop_post(b, a, now, r),
    ensures
        r == Some(fresh_packets(b, now)[0].1),
        a.last_spec() == Some(fresh_packets(b, now)[0].0),
{
    let s = fresh_packets(b, now);
    lemma_filter_sorted(b.packets_spec(), fresh_at(now, b.depth_spec()));
    assert(s[0].0 == s[0].0);
    let i = choose|i: int| 0 <= i < s.len() && (#[trigger] s[i]).0 == s[0].0;
    if i > 0 {
        assert(s[0].0 < s[i].0);
    }
}

/// Law: after a packet was handed out, a pop hands out only the packet numbered right after
/// it; when that one is missing nothing is handed out, the fresh packets stay and the last
/// number is kept.
pub proof fn law_pop_only_next(b: JitterBuffer, a: JitterBuffer, now: u64, r: Option<Vec<u8>>, l: u16)
    requires
        b.last_spec() == Some(l),
        pop_post(b, a, now, r),
    ensures
        r is Some ==> a.last_spec() == Some(seq_after(l))
            && exists|i: int| 0 <= i < fresh_packets(b, now).len() && (#[trigger] fresh_packets(b, now)[i]).0 == seq_after(l)
                && r == Some(fresh_packets(b, now)[i].1),
        !(exists|i: int| 0 <= i < fresh_packets(b, now).len() && (#[trigger] fresh_packets(b, now)[i]).0 == seq_after(l))
            ==> r is None && a.packets_spec() == fresh_packets(b, now) && a.last_spec() == Some(l),
{
    let s = fresh_packets(b, now);
    let n = seq_after(l);
    assert(next_seq(b.last_spec(), s) == Some(n));
    if exists|i: int| 0 <= i < s.len() && (#[trigger] s[i]).0 == n {
        let i = choose|i: int| 0 <= i < s.len() && (#[trigger] s[i]).0 == n;
        assert(r == Some(s[i].1));
        assert(a.last_spec() == Some(n));
    } else {
        assert(r is None);
    }
}

/// Law: a run of two pops from a new or reset buffer, both handing out a packet, hands out
/// the smallest fresh packet and then the one numbered right after it.
pub proof fn law_pop_run_consecutive(
    b0: JitterBuffer,
    b1: JitterBuffer,
    b2: JitterBuffer,
    t1: u64,
    t2: u64,
    r1: Option<Vec<u8>>,
    r2: Option<Vec<u8>>,
)
    requires
        b0.wf(),
        b0.last_spec() is None,
        pop_post(b0, b1, t1, r1),
        pop_post(b1, b2, t2, r2),
        r1 is Some,
        r2 is Some,
    ensures
        b1.last_spec() == Some(fresh_packets(b0, t1)[0].0),
        b2.last_spec() == Some(seq_after(fresh_packets(b0, t1)[0].0)),
{
    law_first_pop_takes_smallest(b0, b1, t1, r1);
    law_pop_only_next(b1, b2, t2, r2, fresh_packets(b0, t1)[0].0);
}

/// Law: when the gap-aware pop reports a skipped gap, nothing is handed out, the fresh packets
/// stay, and the next packet due is the smallest of them.
pub proof fn law_gap_resumes_at_smallest(b: JitterBuffer, a: JitterBuffer, now: u64, r: (Option<Vec<u8>>, u64))
    requires
        pop_gap_post(b, a, now, r),
        r.1 > 0,
    ensures
        r.0 is None,
        a.packets_spec() == fresh_packets(b, now),
        fresh_packets(b, now).len() > 0,
        a.last_spec() matches Some(l) && seq_after(l) == fresh_packets(b, now)[0].0,
        next_seq(a.last_spec(), a.packets_spec()) == Some(fresh_packets(b, now)[0].0),
{
}

/// Law: a freshly stored packet survives its own clean-up.
pub proof fn law_pushed_is_fresh(seq: u16, d: Vec<u8>, now: u64, depth: u64)
    ensures
        fresh_at(now, depth)((seq, d, now)),
{
}

} // verus!
