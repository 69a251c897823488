use vstd::prelude::*;
use std::collections::VecDeque;
use std::time::Instant;
use crate::text::{chars_of, seq_eq};

verus! {

/// A point on the monotonic clock.
#[verifier::external_type_specification]
#[verifier::external_body]
pub struct ExInstant(std::time::Instant);

/// Calls `Instant::now`. What it reads is the machine's clock, so nothing is
/// stated of it.
#[verifier::external_body]
fn instant_now() -> Instant {
    Instant::now()
}

/// Calls `Instant::saturating_duration_since` and `Duration::as_nanos`: the
/// nanoseconds from `origin` to `now` on the monotonic clock. The value depends
/// on when the two readings were taken, so nothing is stated of it.
#[verifier::external_body]
fn nanos_between(origin: &Instant, now: &Instant) -> u128 {
    now.saturating_duration_since(*origin).as_nanos()
}

/// Calls `Instant::checked_sub` with a window of the given nanoseconds:
/// whether the monotonic clock reaches back that far before `now`. That
/// depends on the clock's own starting point, so nothing is stated of it.
#[verifier::external_body]
fn reaches_back(now: &Instant, window_nanos: u64) -> bool {
    now.checked_sub(std::time::Duration::from_nanos(window_nanos)).is_some()
}

/// Whether an admission recorded at `t` has left the window that ends at `now`
/// (it lies at or before `now - window`).
pub open spec fn expired(t: u128, now: u128, window: u64) -> bool {
    t + window <= now
}

/// What remains of a bucket once the admissions at its front that have left
/// the window are dropped.
pub open spec fn prune(s: Seq<u128>, now: u128, window: u64) -> Seq<u128>
    decreases s.len(),
{
    if s.len() > 0 && expired(s[0], now, window) {
        prune(s.drop_first(), now, window)
    } else {
        s
    }
}

/// The bucket a key has in a state of the limiter (empty when it has none).
pub open spec fn bucket_of(m: Map<Seq<char>, Seq<u128>>, key: Seq<char>) -> Seq<u128> {
    if m.contains_key(key) {
        m[key]
    } else {
        Seq::empty()
    }
}

/// Whether a request under `key` is let through at `now`.
pub open spec fn admits(
    m: Map<Seq<char>, Seq<u128>>,
    key: Seq<char>,
    limit: usize,
    window: u64,
    now: u128,
) -> bool {
    limit == 0 || prune(bucket_of(m, key), now, window).len() < limit
}

/// The state of the limiter after a request under `key` at `now`: with no
/// limit nothing changes; otherwise the key's bucket loses its expired front
/// and, when the request is let through, records `now`.
pub open spec fn after_request(
    m: Map<Seq<char>, Seq<u128>>,
    key: Seq<char>,
    limit: usize,
    window: u64,
    now: u128,
) -> Map<Seq<char>, Seq<u128>> {
    if limit == 0 {
        m
    } else {
        let kept = prune(bucket_of(m, key), now, window);
        if kept.len() < limit {
            m.insert(key, kept.push(now))
        } else {
            m.insert(key, kept)
        }
    }
}

/// Nondecreasing: the order in which a monotonic clock records.
pub open spec fn sorted(s: Seq<u128>) -> bool {
    forall|i: int, j: int| 0 <= i <= j < s.len() ==> s[i] <= s[j]
}

/// Pruning keeps a suffix of the bucket and drops only expired admissions; on
/// a bucket in clock order it drops exactly the expired ones.
pub proof fn lemma_prune_window(s: Seq<u128>, now: u128, window: u64)
    ensures
        prune(s, now, window).len() <= s.len(),
        prune(s, now, window) == s.subrange(s.len() - prune(s, now, window).len(), s.len() as int),
        forall|i: int|
            0 <= i < s.len() - prune(s, now, window).len() ==> expired(#[trigger] s[i], now, window),
        sorted(s) ==> forall|i: int|
            s.len() - prune(s, now, window).len() <= i < s.len() ==> !expired(
                #[trigger] s[i],
                now,
                window,
            ),
    decreases s.len(),
{
    if s.len() > 0 && expired(s[0], now, window) {
        let t = s.drop_first();
        lemma_prune_window(t, now, window);
        assert forall|i: int| 0 <= i < s.len() - prune(s, now, window).len() implies expired(
            #[trigger] s[i],
            now,
            window,
        ) by {
            if i > 0 {
                assert(s[i] == t[i - 1]);
            }
        }
        if sorted(s) {
            assert(sorted(t));
            assert forall|i: int| s.len() - prune(s, now, window).len() <= i < s.len() implies !expired(
                #[trigger] s[i],
                now,
                window,
            ) by {
                assert(s[i] == t[i - 1]);
            }
        }
        assert(prune(s, now, window) =~= s.subrange(
            s.len() - prune(s, now, window).len(),
            s.len() as int,
        ));
    } else {
        assert(s.subrange(0, s.len() as int) =~= s);
        if sorted(s) && s.len() > 0 {
            assert forall|i: int| 0 <= i < s.len() implies !expired(#[trigger] s[i], now, window) by {
                assert(s[0] <= s[i]);
            }
        }
    }
}

/// What a request under `key` does to the limiter: with no limit it goes
/// through and changes nothing; otherwise it goes through exactly when fewer
/// than `limit` of the key's admissions are still inside the window, after
/// which the key's bucket holds at most `limit` admissions; a refused request
/// leaves at least `limit` admissions in the window and records nothing; the
/// buckets of other keys are untouched; and a bucket kept in clock order
/// stays in clock order when the clock has not gone back.
pub proof fn law_rate_limit(
    m: Map<Seq<char>, Seq<u128>>,
    key: Seq<char>,
    other: Seq<char>,
    limit: usize,
    window: u64,
    now: u128,
)
    ensures
        limit == 0 ==> admits(m, key, limit, window, now) && after_request(
            m,
            key,
            limit,
            window,
            now,
        ) == m,
        limit > 0 && admits(m, key, limit, window, now) ==> bucket_of(
            after_request(m, key, limit, window, now),
            key,
        ).len() <= limit && bucket_of(after_request(m, key, limit, window, now), key).last()
            == now,
        !admits(m, key, limit, window, now) ==> prune(bucket_of(m, key), now, window).len() >= limit
            && bucket_of(after_request(m, key, limit, window, now), key) == prune(
            bucket_of(m, key),
            now,
            window,
        ),
        other != key ==> bucket_of(after_request(m, key, limit, window, now), other) == bucket_of(
            m,
            other,
        ),
        sorted(bucket_of(m, key)) && (forall|i: int|
            0 <= i < bucket_of(m, key).len() ==> #[trigger] bucket_of(m, key)[i] <= now) ==> sorted(
            bucket_of(after_request(m, key, limit, window, now), key),
        ),
{
    let b = bucket_of(m, key);
    let kept = prune(b, now, window);
    lemma_prune_window(b, now, window);
    if sorted(b) && (forall|i: int| 0 <= i < b.len() ==> #[trigger] b[i] <= now) {
        let d = b.len() - kept.len();
        assert forall|i: int, j: int| 0 <= i <= j < kept.len() implies kept[i] <= kept[j] by {
            assert(kept[i] == b[d + i]);
            assert(kept[j] == b[d + j]);
        }
        assert forall|i: int| 0 <= i < kept.len() implies kept[i] <= now by {
            assert(kept[i] == b[d + i]);
        }
        let pushed = kept.push(now);
        assert forall|i: int, j: int| 0 <= i <= j < pushed.len() implies pushed[i] <= pushed[j] by {
            if j < kept.len() {
                assert(pushed[i] == kept[i]);
                assert(pushed[j] == kept[j]);
            }
        }
    }
}

/// The limiter after requests under `key` at the given times, one after another.
pub open spec fn after_requests(
    m: Map<Seq<char>, Seq<u128>>,
    key: Seq<char>,
    limit: usize,
    window: u64,
    times: Seq<u128>,
) -> Map<Seq<char>, Seq<u128>>
    decreases times.len(),
{
    if times.len() == 0 {
        m
    } else {
        after_request(after_requests(m, key, limit, window, times.drop_last()), key, limit, window, times.last())
    }
}

/// The times, in order, of those requests under `key` at the given times that
/// were let through.
pub open spec fn admitted_times(
    m: Map<Seq<char>, Seq<u128>>,
    key: Seq<char>,
    limit: usize,
    window: u64,
    times: Seq<u128>,
) -> Seq<u128>
    decreases times.len(),
{
    if times.len() == 0 {
        Seq::empty()
    } else {
        let before = admitted_times(m, key, limit, window, times.drop_last());
        if admits(after_requests(m, key, limit, window, times.drop_last()), key, limit, window, times.last()) {
            before.push(times.last())
        } else {
            before
        }
    }
}

/// Dropping what expired by `t1` and then what expired by a later `t2` drops
/// what expired by `t2`.
proof fn lemma_prune_twice(s: Seq<u128>, t1: u128, t2: u128, window: u64)
    requires
        t1 <= t2,
    ensures
        prune(prune(s, t1, window), t2, window) == prune(s, t2, window),
    decreases s.len(),
{
    if s.len() > 0 && expired(s[0], t1, window) {
        lemma_prune_twice(s.drop_first(), t1, t2, window);
    } else if s.len() > 0 && expired(s[0], t2, window) {
        assert(prune(s, t1, window) == s);
    }
}

/// Pruning a sequence with one more time at its end: the time stays when it
/// has not expired; when it has, and it is the latest, nothing stays.
proof fn lemma_prune_push(s: Seq<u128>, x: u128, t: u128, window: u64)
    requires
        forall|i: int| 0 <= i < s.len() ==> #[trigger] s[i] <= x,
    ensures
        !expired(x, t, window) ==> prune(s.push(x), t, window) == prune(s, t, window).push(x),
        expired(x, t, window) ==> prune(s.push(x), t, window) == Seq::<u128>::empty(),
    decreases s.len(),
{
    if s.len() == 0 {
        assert(s.push(x) =~= seq![x]);
        assert(seq![x].drop_first() =~= Seq::<u128>::empty());
        assert(prune(Seq::<u128>::empty(), t, window) == Seq::<u128>::empty());
    } else {
        assert(s.push(x).drop_first() =~= s.drop_first().push(x));
        assert(s.push(x)[0] == s[0]);
        assert(s[0] <= x);
        assert(forall|i: int| 0 <= i < s.drop_first().len() ==> #[trigger] s.drop_first()[i] == s[i + 1]);
        lemma_prune_push(s.drop_first(), x, t, window);
    }
}

/// What holds of the key's bucket after requests at nondecreasing times,
/// starting with no bucket: beyond the last request, pruning it agrees with
/// pruning the admitted times; it holds at most `limit` times; and every time
/// recorded is at most the last request's.
proof fn lemma_requests_invariant(
    m: Map<Seq<char>, Seq<u128>>,
    key: Seq<char>,
    limit: usize,
    window: u64,
    times: Seq<u128>,
)
    requires
        limit > 0,
        bucket_of(m, key).len() == 0,
        sorted(times),
    ensures
        ({
            let b = bucket_of(after_requests(m, key, limit, window, times), key);
            let a = admitted_times(m, key, limit, window, times);
            &&& b.len() <= limit
            &&& sorted(a)
            &&& times.len() > 0 ==> forall|i: int| 0 <= i < b.len() ==> #[trigger] b[i] <= times.last()
            &&& times.len() > 0 ==> forall|i: int| 0 <= i < a.len() ==> #[trigger] a[i] <= times.last()
            &&& forall|t: u128|
                (times.len() == 0 || times.last() <= t) ==> #[trigger] prune(b, t, window) == prune(a, t, window)
        }),
    decreases times.len(),
{
    if times.len() == 0 {
        assert(bucket_of(m, key) =~= Seq::<u128>::empty());
    } else {
        let prev = times.drop_last();
        let x = times.last();
        assert(sorted(prev));
        lemma_requests_invariant(m, key, limit, window, prev);
        let m0 = after_requests(m, key, limit, window, prev);
        let b0 = bucket_of(m0, key);
        let a0 = admitted_times(m, key, limit, window, prev);
        let kept = prune(b0, x, window);
        lemma_prune_window(b0, x, window);
        let d = b0.len() - kept.len();
        if prev.len() > 0 {
            assert(prev.last() <= x) by {
                assert(prev.last() == times[times.len() - 2]);
            }
        }
        assert forall|i: int| 0 <= i < b0.len() implies #[trigger] b0[i] <= x by {
            if prev.len() > 0 {
                assert(prev.last() <= x);
            }
        }
        assert forall|i: int| 0 <= i < a0.len() implies #[trigger] a0[i] <= x by {
            if prev.len() > 0 {
                assert(prev.last() <= x);
            }
        }
        assert forall|i: int| 0 <= i < kept.len() implies #[trigger] kept[i] <= x by {
            assert(kept[i] == b0[d + i]);
        }
        assert(kept == prune(a0, x, window)) by {
            if prev.len() == 0 {
                assert(b0 =~= Seq::<u128>::empty());
                assert(a0 =~= Seq::<u128>::empty());
            }
        }
        let b = bucket_of(after_requests(m, key, limit, window, times), key);
        let a = admitted_times(m, key, limit, window, times);
        assert(times.drop_last() == prev);
        if admits(m0, key, limit, window, x) {
            assert(b == kept.push(x));
            assert(a == a0.push(x));
            assert forall|t: u128| x <= t implies #[trigger] prune(b, t, window) == prune(a, t, window) by {
                lemma_prune_push(kept, x, t, window);
                lemma_prune_push(a0, x, t, window);
                lemma_prune_twice(a0, x, t, window);
            }
            assert forall|i: int, j: int| 0 <= i <= j < a.len() implies a[i] <= a[j] by {
                if j == a.len() - 1 {
                    assert(a[j] == x);
                    if i < j {
                        assert(a[i] == a0[i]);
                    }
                } else {
                    assert(a[i] == a0[i] && a[j] == a0[j]);
                }
            }
        } else {
            assert(b == kept);
            assert(a == a0);
            assert forall|t: u128| x <= t implies #[trigger] prune(b, t, window) == prune(a, t, window) by {
                lemma_prune_twice(a0, x, t, window);
            }
        }
    }
}

/// The sliding-window law: when requests under one key, with one limit above 0
/// and one window, come at nondecreasing times to a limiter that holds no
/// bucket for the key, then at any instant `t` from the last request on, at
/// most `limit` of the requests let through lie within the window ending at
/// `t` (the admitted times that `prune` keeps are exactly those not yet
/// expired, by `lemma_prune_window`, since they are in clock order).
pub proof fn law_sliding_window(
    m: Map<Seq<char>, Seq<u128>>,
    key: Seq<char>,
    limit: usize,
    window: u64,
    times: Seq<u128>,
    t: u128,
)
    requires
        limit > 0,
        bucket_of(m, key).len() == 0,
        sorted(times),
        times.len() > 0 ==> times.last() <= t,
    ensures
        sorted(admitted_times(m, key, limit, window, times)),
        forall|i: int|
            0 <= i < admitted_times(m, key, limit, window, times).len() ==> #[trigger] admitted_times(
                m,
                key,
                limit,
                window,
                times,
            )[i] <= t,
        prune(admitted_times(m, key, limit, window, times), t, window).len() <= limit,
{
    lemma_requests_invariant(m, key, limit, window, times);
    let b = bucket_of(after_requests(m, key, limit, window, times), key);
    assert(prune(b, t, window) == prune(admitted_times(m, key, limit, window, times), t, window));
    lemma_prune_window(b, t, window);
}

/// A throttled key is let in again once the window has passed: when every
/// admission recorded for the key is at least `window` old at `now`, a request
/// at `now` goes through, and the key's bucket then holds just `now`.
pub proof fn law_readmission(
    m: Map<Seq<char>, Seq<u128>>,
    key: Seq<char>,
    limit: usize,
    window: u64,
    now: u128,
)
    requires
        limit > 0,
        forall|i: int| 0 <= i < bucket_of(m, key).len() ==> expired(#[trigger] bucket_of(m, key)[i], now, window),
    ensures
        admits(m, key, limit, window, now),
        bucket_of(after_request(m, key, limit, window, now), key) == seq![now],
{
    let b = bucket_of(m, key);
    lemma_prune_window(b, now, window);
    let kept = prune(b, now, window);
    if kept.len() > 0 {
        let d = b.len() - kept.len();
        assert(kept[0] == b[d]);
        assert(expired(b[d], now, window));
        assert(kept == b.subrange(d, b.len() as int));
        lemma_prune_front_not_expired(b, now, window);
    }
    assert(kept =~= Seq::<u128>::empty());
    assert(kept.push(now) =~= seq![now]);
}

/// What pruning keeps starts with an admission that has not expired.
proof fn lemma_prune_front_not_expired(s: Seq<u128>, now: u128, window: u64)
    ensures
        prune(s, now, window).len() > 0 ==> !expired(prune(s, now, window)[0], now, window),
    decreases s.len(),
{
    if s.len() > 0 && expired(s[0], now, window) {
        lemma_prune_front_not_expired(s.drop_first(), now, window);
    }
}

/// The same over a run of requests: when requests under one key, with one
/// limit above 0 and one window, came at nondecreasing times to a limiter with
/// no bucket for the key, and every request let through is at least `window`
/// old at a later instant `now`, then a request at `now` goes through (refused
/// requests are not recorded, so they do not hold the key back).
pub proof fn law_readmission_after_requests(
    m: Map<Seq<char>, Seq<u128>>,
    key: Seq<char>,
    limit: usize,
    window: u64,
    times: Seq<u128>,
    now: u128,
)
    requires
        limit > 0,
        bucket_of(m, key).len() == 0,
        sorted(times),
        times.len() > 0 ==> times.last() <= now,
        forall|i: int|
            0 <= i < admitted_times(m, key, limit, window, times).len() ==> expired(
                #[trigger] admitted_times(m, key, limit, window, times)[i],
                now,
                window,
            ),
    ensures
        admits(after_requests(m, key, limit, window, times), key, limit, window, now),
{
    lemma_requests_invariant(m, key, limit, window, times);
    let a = admitted_times(m, key, limit, window, times);
    let b = bucket_of(after_requests(m, key, limit, window, times), key);
    lemma_prune_window(a, now, window);
    lemma_prune_front_not_expired(a, now, window);
    let kept = prune(a, now, window);
    if kept.len() > 0 {
        let d = a.len() - kept.len();
        assert(kept == a.subrange(d, a.len() as int));
        assert(kept[0] == a[d]);
    }
    assert(prune(b, now, window) == kept);
}

/// A sliding-window limiter: for each key, the times (nanoseconds on the
/// monotonic clock since the limiter was made) of the requests it let through.
pub struct RateLimiter {
    origin: Instant,
    buckets: Vec<(String, VecDeque<u128>)>,
}

impl RateLimiter {
    /// No key occurs twice.
    pub closed spec fn wf(&self) -> bool {
        forall|i: int, j: int|
            0 <= i < j < self.buckets@.len() ==> #[trigger] self.buckets@[i].0@
                != #[trigger] self.buckets@[j].0@
    }

    closed spec fn has_key_at(&self, k: Seq<char>, i: int) -> bool {
        0 <= i < self.buckets@.len() && self.buckets@[i].0@ == k
    }

    /// The buckets, by key.
    pub closed spec fn buckets_map(&self) -> Map<Seq<char>, Seq<u128>> {
        Map::new(
            |k: Seq<char>| exists|i: int| self.has_key_at(k, i),
            |k: Seq<char>| self.buckets@[choose|i: int| self.has_key_at(k, i)].1@,
        )
    }

    proof fn lemma_lookup(&self, k: Seq<char>, i: int)
        requires
            self.wf(),
            self.has_key_at(k, i),
        ensures
            self@.contains_key(k),
            self@[k] == self.buckets@[i].1@,
    {
        let j = choose|j: int| self.has_key_at(k, j);
        assert(self.has_key_at(k, j));
        if j < i {
            assert(self.buckets@[j].0@ != self.buckets@[i].0@);
        } else if i < j {
            assert(self.buckets@[i].0@ != self.buckets@[j].0@);
        }
    }
}

impl View for RateLimiter {
    type V = Map<Seq<char>, Seq<u128>>;

    closed spec fn view(&self) -> Map<Seq<char>, Seq<u128>> {
        self.buckets_map()
    }
}

/// Whether an admission recorded at `t` has left the window that ends at `now`.
fn is_expired(t: u128, now: u128, window: u64) -> (r: bool)
    ensures
        r == expired(t, now, window),
{
    t <= now && now - t >= window as u128
}

/// Drops the admissions at the front of `q` that have left the window.
fn prune_front(q: &mut VecDeque<u128>, now: u128, window: u64)
    ensures
        final(q)@ == prune(old(q)@, now, window),
{
    let ghost target = prune(q@, now, window);
    while q.len() > 0 && is_expired(q[0], now, window)
        invariant
            prune(q@, now, window) == target,
        decreases q@.len(),
    {
        let ghost before = q@;
        let _ = q.pop_front();
        assert(q@ == before.drop_first());
    }
}

impl RateLimiter {
    /// A limiter that has let nothing through yet.
    pub fn new() -> (r: RateLimiter)
        ensures
            r.wf(),
            r@ == Map::<Seq<char>, Seq<u128>>::empty(),
    {
        let r = RateLimiter { origin: instant_now(), buckets: Vec::new() };
        assert(r@ =~= Map::<Seq<char>, Seq<u128>>::empty());
        r
    }

    /// The index of `key`'s bucket, if it has one.
    fn find(&self, key: &str) -> (r: Option<usize>)
        requires
            self.wf(),
        ensures
            match r {
                Some(i) => self.has_key_at(key@, i as int),
                None => !self@.contains_key(key@),
            },
    {
        let k = chars_of(key);
        let n = self.buckets.len();
        for i in 0..n
            invariant
                n == self.buckets@.len(),
                k@ == key@,
                forall|j: int| 0 <= j < i ==> self.buckets@[j].0@ != key@,
        {
            let name = chars_of(self.buckets[i].0.as_str());
            if seq_eq(&name, &k) {
                return Some(i);
            }
        }
        proof {
            if self@.contains_key(key@) {
                let j = choose|j: int| self.has_key_at(key@, j);
                assert(self.has_key_at(key@, j));
            }
        }
        None
    }

    /// Decides whether a request under `key` may go through at `now`, given as
    /// nanoseconds since the limiter was made: at most `limit` requests per key
    /// within any `window_nanos`; a `limit` of 0 means no limit. A request
    /// that goes through is recorded; one that does not is not.
    pub fn allow_at(&mut self, key: &str, limit: usize, window_nanos: u64, now: u128) -> (r: bool)
        requires
            old(self).wf(),
        ensures
            final(self).wf(),
            r == admits(old(self)@, key@, limit, window_nanos, now),
            final(self)@ == after_request(old(self)@, key@, limit, window_nanos, now),
    {
        if limit == 0 {
            return true;
        }
        match self.find(key) {
            Some(i) => {
                proof {
                    self.lemma_lookup(key@, i as int);
                }
                let ghost before = *self;
                let (name, mut q) = self.buckets.remove(i);
                prune_front(&mut q, now, window_nanos);
                let allowed = q.len() < limit;
                if allowed {
                    q.push_back(now);
                }
                self.buckets.insert(i, (name, q));
                proof {
                    assert(self.buckets@ == before.buckets@.update(i as int, (name, q)));
                    self.lemma_replace(before, i as int, key@, q@);
                }
                allowed
            },
            None => {
                let mut q: VecDeque<u128> = VecDeque::new();
                assert(prune(Seq::<u128>::empty(), now, window_nanos) == Seq::<u128>::empty());
                q.push_back(now);
                let ghost before = *self;
                proof {
                    assert forall|j: int| 0 <= j < before.buckets@.len() implies before.buckets@[j].0@
                        != key@ by {
                        if before.buckets@[j].0@ == key@ {
                            assert(before.has_key_at(key@, j));
                        }
                    }
                }
                self.buckets.push((key.to_owned(), q));
                proof {
                    self.lemma_append(before, key@, q@);
                }
                true
            },
        }
    }

    proof fn lemma_replace(
        &self,
        before: RateLimiter,
        i: int,
        k: Seq<char>,
        q: Seq<u128>,
    )
        requires
            0 <= i < before.buckets@.len(),
            before.buckets@[i].0@ == k,
            self.buckets@.len() == before.buckets@.len(),
            self.buckets@[i].0@ == k,
            self.buckets@[i].1@ == q,
            forall|j: int| 0 <= j < before.buckets@.len() && j != i ==> self.buckets@[j] == before.buckets@[j],
            before.wf(),
        ensures
            self.wf(),
            self@ == before@.insert(k, q),
    {
        assert forall|a: int, b: int| 0 <= a < b < self.buckets@.len() implies
            #[trigger] self.buckets@[a].0@ != #[trigger] self.buckets@[b].0@ by {
            assert(before.buckets@[a].0@ != before.buckets@[b].0@);
        }
        assert(self.wf());
        assert forall|x: Seq<char>| #[trigger] self@.contains_key(x) == before@.insert(k, q).contains_key(x) by {
            if exists|j: int| self.has_key_at(x, j) {
                let j = choose|j: int| self.has_key_at(x, j);
                assert(self.has_key_at(x, j));
                if j != i {
                    assert(before.has_key_at(x, j));
                }
            }
            if exists|j: int| before.has_key_at(x, j) {
                let j = choose|j: int| before.has_key_at(x, j);
                if j != i {
                    assert(self.has_key_at(x, j));
                } else {
                    assert(self.has_key_at(x, i));
                }
            }
            if x == k {
                assert(self.has_key_at(x, i));
            }
        }
        assert forall|x: Seq<char>| self@.contains_key(x) implies #[trigger] self@[x] == before@.insert(k, q)[x] by {
            let j = choose|j: int| self.has_key_at(x, j);
            assert(self.has_key_at(x, j));
            self.lemma_lookup(x, j);
            if j != i {
                assert(self.buckets@[j].0@ != self.buckets@[i].0@);
                assert(before.has_key_at(x, j));
                before.lemma_lookup(x, j);
            }
        }
        assert(self@ =~= before@.insert(k, q));
    }

    proof fn lemma_append(
        &self,
        before: RateLimiter,
        k: Seq<char>,
        q: Seq<u128>,
    )
        requires
            self.buckets@.len() == before.buckets@.len() + 1,
            self.buckets@[before.buckets@.len() as int].0@ == k,
            self.buckets@[before.buckets@.len() as int].1@ == q,
            forall|j: int| 0 <= j < before.buckets@.len() ==> self.buckets@[j] == before.buckets@[j],
            forall|j: int| 0 <= j < before.buckets@.len() ==> before.buckets@[j].0@ != k,
            before.wf(),
        ensures
            self.wf(),
            self@ == before@.insert(k, q),
    {
        let n = before.buckets@.len() as int;
        assert forall|a: int, b: int| 0 <= a < b < self.buckets@.len() implies
            #[trigger] self.buckets@[a].0@ != #[trigger] self.buckets@[b].0@ by {
            if b < n {
                assert(before.buckets@[a].0@ != before.buckets@[b].0@);
            } else {
                assert(before.buckets@[a].0@ != k);
            }
        }
        assert(self.wf());
        assert forall|x: Seq<char>| #[trigger] self@.contains_key(x) == before@.insert(k, q).contains_key(x) by {
            if exists|j: int| self.has_key_at(x, j) {
                let j = choose|j: int| self.has_key_at(x, j);
                assert(self.has_key_at(x, j));
                if j != n {
                    assert(before.has_key_at(x, j));
                }
            }
            if exists|j: int| before.has_key_at(x, j) {
                let j = choose|j: int| before.has_key_at(x, j);
                assert(self.has_key_at(x, j));
            }
            if x == k {
                assert(self.has_key_at(x, n));
            }
        }
        assert forall|x: Seq<char>| self@.contains_key(x) implies #[trigger] self@[x] == before@.insert(k, q)[x] by {
            let j = choose|j: int| self.has_key_at(x, j);
            assert(self.has_key_at(x, j));
            self.lemma_lookup(x, j);
            if j != n {
                assert(self.buckets@[j].0@ != self.buckets@[n].0@);
                assert(before.has_key_at(x, j));
                before.lemma_lookup(x, j);
            }
        }
        assert(self@ =~= before@.insert(k, q));
    }

    /// Decides whether a request under `key` may go through now: at most
    /// `limit` requests per key within any `window_nanos`; a `limit` of 0
    /// means no limit. The decision is the one `allow_at` makes at the time
    /// the monotonic clock gave, with the whole window when the clock reaches
    /// back that far, and otherwise with none (the cutoff is then the present,
    /// so the key's earlier admissions all count as expired).
    pub fn allow(&mut self, key: &str, limit: usize, window_nanos: u64) -> (r: bool)
        requires
            old(self).wf(),
        ensures
            final(self).wf(),
            exists|now: u128, window: u64|
                #![trigger after_request(old(self)@, key@, limit, window, now)]
                (window == window_nanos || window == 0) && r == admits(old(self)@, key@, limit, window, now)
                    && final(self)@ == after_request(old(self)@, key@, limit, window, now),
    {
        if limit == 0 {
            assert(after_request(self@, key@, limit, window_nanos, 0) == self@);
            return true;
        }
        let instant = instant_now();
        let now = nanos_between(&self.origin, &instant);
        let window = if reaches_back(&instant, window_nanos) { window_nanos } else { 0 };
        self.allow_at(key, limit, window, now)
    }
}

} // verus!
