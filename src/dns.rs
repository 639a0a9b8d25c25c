//! A cache of resolved domain names.
//!
//! The cache only remembers; the system lookup happens outside it, and its
//! owner records each successful answer with the time it came. An answer older
//! than the cache's time-to-live no longer counts. Callers share one cache
//! behind a lock that they hold for a lookup or a record, never across the
//! system call. Times are in seconds, from any fixed origin.
use vstd::prelude::*;

verus! {

/// A resolved IP address.
#[derive(Clone, Copy, Debug, PartialEq, Eq)]
pub enum IpAddress {
    V4([u8; 4]),
    V6([u8; 16]),
}

/// Domain names (as bytes), each with the address it last resolved to and when.
pub struct DnsCache {
    entries: Vec<(Vec<u8>, (IpAddress, u64))>,
    ttl: u64,
    map: Ghost<Map<Seq<u8>, (IpAddress, u64)>>,
}

impl View for DnsCache {
    type V = Map<Seq<u8>, (IpAddress, u64)>;

    closed spec fn view(&self) -> Map<Seq<u8>, (IpAddress, u64)> {
        self.map@
    }
}

/// An answer recorded at `at` still counts at `now`.
pub open spec fn fresh(at: u64, now: u64, ttl: u64) -> bool {
    now <= at + ttl
}

/// What a cache `m` with time-to-live `ttl` answers for `name` at `now`.
pub open spec fn cached(m: Map<Seq<u8>, (IpAddress, u64)>, ttl: u64, name: Seq<u8>, now: u64) -> Option<
    IpAddress,
> {
    if m.contains_key(name) && fresh(m[name].1, now, ttl) {
        Some(m[name].0)
    } else {
        None
    }
}

fn same_bytes(a: &[u8], b: &[u8]) -> (r: bool)
    ensures
        r == (a@ == b@),
{
    if a.len() != b.len() {
        return false;
    }
    let mut i: usize = 0;
    while i < a.len()
        invariant
            a@.len() == b@.len(),
            i <= a@.len(),
            forall|j: int| 0 <= j < i ==> a@[j] == b@[j],
        decreases a@.len() - i,
    {
        if a[i] != b[i] {
            return false;
        }
        i += 1;
    }
    assert(a@ =~= b@);
    true
}

fn copy_bytes(b: &[u8]) -> (r: Vec<u8>)
    ensures
        r@ == b@,
{
    let mut out: Vec<u8> = Vec::new();
    let mut j: usize = 0;
    while j < b.len()
        invariant
            j <= b@.len(),
            out@ =~= b@.subrange(0, j as int),
        decreases b@.len() - j,
    {
        out.push(b[j]);
        j += 1;
    }
    assert(out@ =~= b@);
    out
}

impl DnsCache {
    /// Each entry agrees with the map, every key of the map has an entry, and no name
    /// has two entries.
    pub closed spec fn wf(&self) -> bool {
        &&& forall|i: int|
            0 <= i < self.entries@.len() ==> #[trigger] self.map@.contains_key(
                self.entries@[i].0@,
            ) && self.map@[self.entries@[i].0@] == self.entries@[i].1
        &&& forall|k: Seq<u8>|
            #[trigger] self.map@.contains_key(k) ==> exists|i: int|
                0 <= i < self.entries@.len() && self.entries@[i].0@ == k
        &&& forall|i: int, j: int|
            0 <= i < j < self.entries@.len() ==> self.entries@[i].0@ != self.entries@[j].0@
    }

    pub closed spec fn ttl(&self) -> u64 {
        self.ttl
    }

    /// An empty cache whose answers count for `ttl` seconds.
    pub fn new(ttl: u64) -> (r: DnsCache)
        ensures
            r.wf(),
            r@ == Map::<Seq<u8>, (IpAddress, u64)>::empty(),
            r.ttl() == ttl,
    {
        DnsCache { entries: Vec::new(), ttl, map: Ghost(Map::empty()) }
    }

    fn position(&self, name: &[u8]) -> (r: Option<usize>)
        requires
            self.wf(),
        ensures
            match r {
                Some(i) => i < self.entries@.len() && self.entries@[i as int].0@ == name@,
                None => !self@.contains_key(name@),
            },
    {
        let mut i: usize = 0;
        while i < self.entries.len()
            invariant
                self.wf(),
                i <= self.entries@.len(),
                forall|j: int| 0 <= j < i ==> self.entries@[j].0@ != name@,
            decreases self.entries@.len() - i,
        {
            if same_bytes(self.entries[i].0.as_slice(), name) {
                return Some(i);
            }
            i += 1;
        }
        None
    }

    /// The address of `name` at `now`, if the cache holds one that still counts.
    pub fn lookup(&self, name: &[u8], now: u64) -> (r: Option<IpAddress>)
        requires
            self.wf(),
        ensures
            r == cached(self@, self.ttl(), name@, now),
    {
        match self.position(name) {
            Some(i) => {
                assert(self.map@.contains_key(self.entries@[i as int].0@));
                let (ip, at) = self.entries[i].1;
                if now < at || now - at <= self.ttl {
                    Some(ip)
                } else {
                    None
                }
            },
            None => None,
        }
    }

    /// Remember that `name` resolved to `ip` at `now`; a later record of the same name wins.
    pub fn record(&mut self, name: &[u8], ip: IpAddress, now: u64)
        requires
            old(self).wf(),
        ensures
            final(self).wf(),
            final(self)@ == old(self)@.insert(name@, (ip, now)),
            final(self).ttl() == old(self).ttl(),
    {
        let entry = (ip, now);
        let ghost old_map = self.map@;
        let ghost old_entries = self.entries@;
        match self.position(name) {
            Some(i) => {
                let key = copy_bytes(name);
                self.entries.set(i, (key, entry));
                self.map = Ghost(old_map.insert(name@, entry));
                assert forall|a: int|
                    0 <= a < self.entries@.len() implies #[trigger] self.map@.contains_key(
                    self.entries@[a].0@,
                ) && self.map@[self.entries@[a].0@] == self.entries@[a].1 by {
                    if a != i {
                        assert(old_map.contains_key(old_entries[a].0@));
                    }
                }
                assert forall|k: Seq<u8>| #[trigger] self.map@.contains_key(k) implies exists|j: int|
                    0 <= j < self.entries@.len() && self.entries@[j].0@ == k by {
                    if k != name@ {
                        let j = choose|j: int| 0 <= j < old_entries.len() && old_entries[j].0@ == k;
                        assert(self.entries@[j].0@ == k);
                    } else {
                        assert(self.entries@[i as int].0@ == k);
                    }
                }
            },
            None => {
                let key = copy_bytes(name);
                self.entries.push((key, entry));
                self.map = Ghost(old_map.insert(name@, entry));
                assert forall|a: int|
                    0 <= a < self.entries@.len() implies #[trigger] self.map@.contains_key(
                    self.entries@[a].0@,
                ) && self.map@[self.entries@[a].0@] == self.entries@[a].1 by {
                    if a < old_entries.len() {
                        assert(old_map.contains_key(old_entries[a].0@));
                    }
                }
                assert forall|a: int, b: int|
                    0 <= a < b < self.entries@.len() implies self.entries@[a].0@
                    != self.entries@[b].0@ by {
                    if b == old_entries.len() {
                        assert(old_map.contains_key(old_entries[a].0@));
                    }
                }
                assert forall|k: Seq<u8>| #[trigger] self.map@.contains_key(k) implies exists|j: int|
                    0 <= j < self.entries@.len() && self.entries@[j].0@ == k by {
                    if k != name@ {
                        let j = choose|j: int| 0 <= j < old_entries.len() && old_entries[j].0@ == k;
                        assert(self.entries@[j].0@ == k);
                    } else {
                        assert(self.entries@[old_entries.len() as int].0@ == k);
                    }
                }
            },
        }
    }
}

/// Once a name has been recorded, a lookup of it within the time-to-live is answered
/// from the cache with the recorded address, whatever the cache held before.
pub proof fn lemma_recorded_name_hits(
    cache: Map<Seq<u8>, (IpAddress, u64)>,
    ttl: u64,
    name: Seq<u8>,
    ip: IpAddress,
    at: u64,
    now: u64,
)
    requires
        fresh(at, now, ttl),
    ensures
        cached(cache.insert(name, (ip, at)), ttl, name, now) == Some(ip),
{
}

/// Two records of one name leave the cache as the last record alone would: one entry for
/// the name, holding the last address, and every other name untouched.
pub proof fn lemma_record_twice(
    cache: Map<Seq<u8>, (IpAddress, u64)>,
    name: Seq<u8>,
    first: (IpAddress, u64),
    second: (IpAddress, u64),
)
    ensures
        cache.insert(name, first).insert(name, second) == cache.insert(name, second),
{
    assert(cache.insert(name, first).insert(name, second) =~= cache.insert(name, second));
}

} // verus!
