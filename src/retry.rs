//! The retry check: the last admission time of each key, and the rule that
//! admits a key again only once its retry window has passed.
use vstd::prelude::*;

verus! {

/// Nanoseconds in one second: times are kept in nanoseconds, delays in seconds.
pub const NANOS_PER_SECOND: u64 = 1_000_000_000;

/// A key of the ledger: an identifier and a tag, both as text.
pub type KeyView = (Seq<char>, Seq<char>);

/// One record: the key and the time (nanoseconds) of its last admission.
pub struct RetryEntry {
    pub id: String,
    pub tag: String,
    pub at: u64,
}

pub open spec fn key_of(e: RetryEntry) -> KeyView {
    (e.id@, e.tag@)
}

/// Whether the retry check admits key `k` at time `now` over the records `m`: a key
/// never seen is admitted; a seen one only once `retry_delay` seconds have
/// passed, strictly, since its record.
pub open spec fn admits(m: Map<KeyView, u64>, k: KeyView, now: u64, retry_delay: u64) -> bool {
    !m.contains_key(k) || m[k] + retry_delay * NANOS_PER_SECOND < now
}

/// The records after one decision of the retry check.
pub open spec fn after_admit(m: Map<KeyView, u64>, k: KeyView, now: u64, retry_delay: u64) -> Map<
    KeyView,
    u64,
> {
    if admits(m, k, now, retry_delay) {
        m.insert(k, now)
    } else {
        m
    }
}

/// The per-key store of last admission times. Keys are unique; records are
/// added or moved forward, never removed.
pub struct RetryLedger {
    entries: Vec<RetryEntry>,
}

impl RetryLedger {
    pub closed spec fn spec_entries(&self) -> Seq<RetryEntry> {
        self.entries@
    }

    /// No two records share a key.
    pub closed spec fn wf(&self) -> bool {
        forall|i: int, j: int|
            0 <= i < self.entries@.len() && 0 <= j < self.entries@.len() && key_of(
                #[trigger] self.entries@[i],
            ) == key_of(#[trigger] self.entries@[j]) ==> i == j
    }

    /// The records as a map from key to time.
    pub closed spec fn view(&self) -> Map<KeyView, u64> {
        Map::new(
            |k: KeyView| exists|i: int| 0 <= i < self.entries@.len() && key_of(self.entries@[i]) == k,
            |k: KeyView|
                self.entries@[choose|i: int|
                    0 <= i < self.entries@.len() && key_of(self.entries@[i]) == k].at,
        )
    }

    proof fn lemma_lookup(&self, i: int)
        requires
            self.wf(),
            0 <= i < self.entries@.len(),
        ensures
            self@.contains_key(key_of(self.entries@[i])),
            self@[key_of(self.entries@[i])] == self.entries@[i].at,
    {
        let k = key_of(self.entries@[i]);
        assert(self@.dom().contains(k));
        let j = choose|j: int| 0 <= j < self.entries@.len() && key_of(self.entries@[j]) == k;
        assert(key_of(self.entries@[j]) == key_of(self.entries@[i]));
    }

    /// An empty ledger.
    pub fn new() -> (r: Self)
        ensures
            r.wf(),
            r@ == Map::<KeyView, u64>::empty(),
    {
        let r = RetryLedger { entries: Vec::new() };
        assert(r@ =~= Map::<KeyView, u64>::empty());
        r
    }

    /// The index of the record of key `(id, tag)`, if there is one.
    fn find(&self, id: &String, tag: &String) -> (r: Option<usize>)
        requires
            self.wf(),
        ensures
            r matches Some(i) ==> i < self.entries@.len() && key_of(self.entries@[i as int]) == (
            id@, tag@),
            r is None ==> !self@.contains_key((id@, tag@)),
    {
        let mut i: usize = 0;
        while i < self.entries.len()
            invariant
                0 <= i <= self.entries@.len(),
                forall|j: int| 0 <= j < i ==> key_of(#[trigger] self.entries@[j]) != (id@, tag@),
            decreases self.entries@.len() - i,
        {
            let e = &self.entries[i];
            if e.id == *id && e.tag == *tag {
                return Some(i);
            }
            i = i + 1;
        }
        None
    }

    /// The time of the last admission of `(id, tag)`, if it was ever admitted.
    pub fn last_attempt(&self, id: &String, tag: &String) -> (r: Option<u64>)
        requires
            self.wf(),
        ensures
            r == (if self@.contains_key((id@, tag@)) {
                Some(self@[(id@, tag@)])
            } else {
                None::<u64>
            }),
    {
        match self.find(id, tag) {
            Some(i) => {
                proof {
                    self.lemma_lookup(i as int);
                }
                Some(self.entries[i].at)
            },
            None => None,
        }
    }

    /// Whether the retry check would admit `(id, tag)` at time `now`; nothing changes.
    pub fn would_admit(&self, id: &String, tag: &String, now: u64, retry_delay: u64) -> (r: bool)
        requires
            self.wf(),
        ensures
            r == admits(self@, (id@, tag@), now, retry_delay),
    {
        match self.last_attempt(id, tag) {
            None => true,
            Some(t) => {
                let window: u128 = (retry_delay as u128) * (NANOS_PER_SECOND as u128);
                (t as u128) + window < (now as u128)
            },
        }
    }

    /// Sets the record of `(id, tag)` to `at`, adding it if it is new.
    pub fn record(&mut self, id: String, tag: String, at: u64)
        requires
            old(self).wf(),
        ensures
            final(self).wf(),
            final(self)@ == old(self)@.insert((id@, tag@), at),
    {
        let k: Ghost<KeyView> = Ghost((id@, tag@));
        let ghost before = self.entries@;
        match self.find(&id, &tag) {
            Some(i) => {
                self.entries.set(i, RetryEntry { id, tag, at });
                proof {
                    let s = self.entries@;
                    assert forall|a: int, b: int|
                        0 <= a < s.len() && 0 <= b < s.len() && key_of(#[trigger] s[a]) == key_of(
                            #[trigger] s[b],
                        ) implies a == b by {
                        assert(key_of(s[a]) == key_of(before[if a == i { i as int } else { a }]));
                        assert(key_of(s[b]) == key_of(before[if b == i { i as int } else { b }]));
                    }
                    assert forall|kk: KeyView| #[trigger] self@.contains_key(kk) <==> old(self)@.insert(k@, at).contains_key(kk) by {
                        if self@.contains_key(kk) {
                            let j = choose|j: int| 0 <= j < s.len() && key_of(s[j]) == kk;
                            if j != i {
                                assert(key_of(before[j]) == kk);
                            }
                        }
                        if old(self)@.contains_key(kk) {
                            let j = choose|j: int| 0 <= j < before.len() && key_of(before[j]) == kk;
                            if j != i {
                                assert(key_of(s[j]) == kk);
                            } else {
                                assert(key_of(s[j]) == kk);
                            }
                        }
                        if kk == k@ {
                            assert(key_of(s[i as int]) == kk);
                        }
                    }
                    assert forall|kk: KeyView| #[trigger] self@.contains_key(kk) implies self@[kk] == old(self)@.insert(k@, at)[kk] by {
                        let j = choose|j: int| 0 <= j < s.len() && key_of(s[j]) == kk;
                        self.lemma_lookup(j);
                        if j != i {
                            old(self).lemma_lookup(j);
                        }
                    }
                    assert(self@ =~= old(self)@.insert(k@, at));
                }
            },
            None => {
                self.entries.push(RetryEntry { id, tag, at });
                proof {
                    let s = self.entries@;
                    let n = before.len() as int;
                    assert forall|a: int, b: int|
                        0 <= a < s.len() && 0 <= b < s.len() && key_of(#[trigger] s[a]) == key_of(
                            #[trigger] s[b],
                        ) implies a == b by {
                        if a < n && b == n {
                            assert(old(self)@.contains_key(key_of(before[a])));
                        }
                        if b < n && a == n {
                            assert(old(self)@.contains_key(key_of(before[b])));
                        }
                    }
                    assert forall|kk: KeyView| #[trigger] self@.contains_key(kk) <==> old(self)@.insert(k@, at).contains_key(kk) by {
                        if self@.contains_key(kk) {
                            let j = choose|j: int| 0 <= j < s.len() && key_of(s[j]) == kk;
                            if j < n {
                                assert(key_of(before[j]) == kk);
                            }
                        }
                        if old(self)@.contains_key(kk) {
                            let j = choose|j: int| 0 <= j < before.len() && key_of(before[j]) == kk;
                            assert(key_of(s[j]) == kk);
                        }
                        if kk == k@ {
                            assert(key_of(s[n]) == kk);
                        }
                    }
                    assert forall|kk: KeyView| #[trigger] self@.contains_key(kk) implies self@[kk] == old(self)@.insert(k@, at)[kk] by {
                        let j = choose|j: int| 0 <= j < s.len() && key_of(s[j]) == kk;
                        self.lemma_lookup(j);
                        if j < n {
                            old(self).lemma_lookup(j);
                        }
                    }
                    assert(self@ =~= old(self)@.insert(k@, at));
                }
            },
        }
    }

    /// The retry check: admits `(id, tag)` at time `now` (nanoseconds) under a retry
    /// delay of `retry_delay` seconds, and records `now` for it when it does.
    pub fn try_admit(&mut self, id: String, tag: String, now: u64, retry_delay: u64) -> (r: bool)
        requires
            old(self).wf(),
        ensures
            final(self).wf(),
            r == admits(old(self)@, (id@, tag@), now, retry_delay),
            final(self)@ == after_admit(old(self)@, (id@, tag@), now, retry_delay),
    {
        let pass = self.would_admit(&id, &tag, now, retry_delay);
        if pass {
            self.record(id, tag, now);
        }
        pass
    }

    /// A copy with the same records.
    pub fn duplicate(&self) -> (r: Self)
        requires
            self.wf(),
        ensures
            r.wf(),
            r@ == self@,
            r.spec_entries() == self.spec_entries(),
    {
        let mut out: Vec<RetryEntry> = Vec::new();
        let mut i: usize = 0;
        while i < self.entries.len()
            invariant
                0 <= i <= self.entries@.len(),
                out@ == self.entries@.subrange(0, i as int),
            decreases self.entries@.len() - i,
        {
            let e = &self.entries[i];
            out.push(RetryEntry { id: e.id.clone(), tag: e.tag.clone(), at: e.at });
            assert(out@ =~= self.entries@.subrange(0, i + 1));
            i = i + 1;
        }
        assert(out@ =~= self.entries@);
        RetryLedger { entries: out }
    }

    /// The records, for saving them elsewhere.
    pub fn entries(&self) -> (r: &Vec<RetryEntry>)
        ensures
            r@ == self.spec_entries(),
    {
        &self.entries
    }
}

/// An admitted key's record moves forward in time: a key is admitted again only
/// at a time later than its record, and the record is then set to that time.
pub proof fn lemma_admission_moves_forward(
    m: Map<KeyView, u64>,
    k: KeyView,
    now: u64,
    retry_delay: u64,
)
    requires
        m.contains_key(k),
        admits(m, k, now, retry_delay),
    ensures
        m[k] < now,
        after_admit(m, k, now, retry_delay)[k] == now,
{
}

/// The retry window of a fresh key under a delay of `d` seconds: admitted at
/// time 0 with record 0; refused at `d / 2` seconds with the record still 0;
/// admitted again at `d + 1` seconds, with the record moved to that time.
pub proof fn lemma_retry_window(m: Map<KeyView, u64>, k: KeyView, d: u64)
    requires
        !m.contains_key(k),
        (d + 1) * NANOS_PER_SECOND <= u64::MAX,
    ensures
        admits(m, k, 0, d),
        after_admit(m, k, 0, d)[k] == 0,
        !admits(after_admit(m, k, 0, d), k, ((d / 2) * NANOS_PER_SECOND) as u64, d),
        after_admit(after_admit(m, k, 0, d), k, ((d / 2) * NANOS_PER_SECOND) as u64, d)[k] == 0,
        admits(
            after_admit(after_admit(m, k, 0, d), k, ((d / 2) * NANOS_PER_SECOND) as u64, d),
            k,
            ((d + 1) * NANOS_PER_SECOND) as u64,
            d,
        ),
        after_admit(
            after_admit(after_admit(m, k, 0, d), k, ((d / 2) * NANOS_PER_SECOND) as u64, d),
            k,
            ((d + 1) * NANOS_PER_SECOND) as u64,
            d,
        )[k] == ((d + 1) * NANOS_PER_SECOND) as u64,
{
    let m1 = after_admit(m, k, 0, d);
    assert(m1[k] == 0);
    assert((d / 2) * NANOS_PER_SECOND <= d * NANOS_PER_SECOND) by (nonlinear_arith);
    assert(d * NANOS_PER_SECOND < (d + 1) * NANOS_PER_SECOND) by (nonlinear_arith);
}

} // verus!
