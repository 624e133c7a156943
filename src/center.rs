//! The data hub: per-device latest values and per-device downlink senders.
//! The hub is owned by one task; sharing it between tasks is left to a
//! concurrent map around its per-device tables.

use vstd::prelude::*;
use crate::point::{Entry, Val};

verus! {

/// A device that the hub can address.
pub trait Identifiable {
    fn id(&self) -> String;
}

/// Failures of the hub's registry and downlink paths.
#[derive(Debug, Clone)]
pub enum DataCenterError {
    /// The downlink receiver of the device is gone.
    SendError(String),
    /// No downlink sender is registered for the device.
    NotFoundDevError(String),
    /// A downlink sender is already registered for the device.
    DevHasRegister(String),
}

/// Values keyed by string, each key at most once.
pub struct Registry<V> {
    items: Vec<(String, V)>,
    map: Ghost<Map<Seq<char>, V>>,
}

impl<V> View for Registry<V> {
    type V = Map<Seq<char>, V>;

    closed spec fn view(&self) -> Map<Seq<char>, V> {
        self.map@
    }
}

impl<V> Registry<V> {
    pub closed spec fn wf(&self) -> bool {
        &&& forall|i: int|
            0 <= i < self.items@.len() ==> self.map@.contains_key((#[trigger] self.items@[i]).0@)
                && self.map@[self.items@[i].0@] == self.items@[i].1
        &&& forall|k: Seq<char>| #[trigger]
            self.map@.contains_key(k) ==> exists|i: int|
                0 <= i < self.items@.len() && self.items@[i].0@ == k
        &&& forall|i: int, j: int|
            0 <= i < self.items@.len() && 0 <= j < self.items@.len() && i != j ==> (
            #[trigger] self.items@[i]).0@ != (#[trigger] self.items@[j]).0@
    }

    pub fn new() -> (r: Registry<V>)
        ensures
            r.wf(),
            r@ == Map::<Seq<char>, V>::empty(),
    {
        Registry { items: Vec::new(), map: Ghost(Map::empty()) }
    }

    /// An empty registry with room for `n` keys.
    pub fn with_capacity(n: usize) -> (r: Registry<V>)
        ensures
            r.wf(),
            r@ == Map::<Seq<char>, V>::empty(),
    {
        Registry { items: Vec::with_capacity(n), map: Ghost(Map::empty()) }
    }

    fn find(&self, k: &str) -> (r: Option<usize>)
        requires
            self.wf(),
        ensures
            match r {
                Some(i) => i < self.items@.len() && self.items@[i as int].0@ == k@
                    && self@.contains_key(k@),
                None => !self@.contains_key(k@),
            },
    {
        let mut i: usize = 0;
        while i < self.items.len()
            invariant
                self.wf(),
                i <= self.items@.len(),
                forall|j: int| 0 <= j < i ==> (#[trigger] self.items@[j]).0@ != k@,
            decreases self.items@.len() - i,
        {
            if crate::catalog::str_eq(self.items[i].0.as_str(), k) {
                return Some(i);
            }
            i = i + 1;
        }
        None
    }

    pub fn contains(&self, k: &str) -> (r: bool)
        requires
            self.wf(),
        ensures
            r == self@.contains_key(k@),
    {
        self.find(k).is_some()
    }

    pub fn get(&self, k: &str) -> (r: Option<&V>)
        requires
            self.wf(),
        ensures
            match r {
                Some(v) => self@.contains_key(k@) && *v == self@[k@],
                None => !self@.contains_key(k@),
            },
    {
        match self.find(k) {
            Some(i) => Some(&self.items[i].1),
            None => None,
        }
    }

    /// Stores `v` under `k`, replacing a value already stored there.
    pub fn insert(&mut self, k: String, v: V)
        requires
            old(self).wf(),
        ensures
            final(self).wf(),
            final(self)@ == old(self)@.insert(k@, v),
    {
        let ghost m2 = self.map@.insert(k@, v);
        let ghost old_items = self.items@;
        match self.find(k.as_str()) {
            Some(i) => {
                let ghost kv = k@;
                self.items.set(i, (k, v));
                self.map = Ghost(m2);
                proof {
                    assert forall|a: Seq<char>| #[trigger] m2.contains_key(a) implies exists|j: int|
                        0 <= j < self.items@.len() && self.items@[j].0@ == a by {
                        if a == kv {
                            assert(self.items@[i as int].0@ == a);
                        } else {
                            assert(old(self).map@.contains_key(a));
                            let j = choose|j: int| 0 <= j < old_items.len() && old_items[j].0@ == a;
                            assert(self.items@[j].0@ == a);
                        }
                    }
                    assert forall|j: int| 0 <= j < self.items@.len() implies m2.contains_key(
                        (#[trigger] self.items@[j]).0@,
                    ) && m2[self.items@[j].0@] == self.items@[j].1 by {
                        if j != i {
                            assert(old_items[j] == self.items@[j]);
                            assert(old_items[j].0@ != old_items[i as int].0@);
                        }
                    }
                    assert forall|a: int, b: int|
                        0 <= a < self.items@.len() && 0 <= b < self.items@.len() && a
                            != b implies (#[trigger] self.items@[a]).0@ != (
                    #[trigger] self.items@[b]).0@ by {
                        if a != i && b != i {
                            assert(old_items[a] == self.items@[a]);
                            assert(old_items[b] == self.items@[b]);
                        } else if a == i {
                            assert(old_items[b] == self.items@[b]);
                            assert(old_items[b].0@ != old_items[i as int].0@);
                        } else {
                            assert(old_items[a] == self.items@[a]);
                            assert(old_items[a].0@ != old_items[i as int].0@);
                        }
                    }
                }
            },
            None => {
                let ghost kv = k@;
                self.items.push((k, v));
                self.map = Ghost(m2);
                proof {
                    let n = old_items.len();
                    assert(self.items@[n as int].0@ == kv);
                    assert forall|a: Seq<char>| #[trigger] m2.contains_key(a) implies exists|j: int|
                        0 <= j < self.items@.len() && self.items@[j].0@ == a by {
                        if a == kv {
                            assert(self.items@[n as int].0@ == a);
                        } else {
                            assert(old(self).map@.contains_key(a));
                            let j = choose|j: int| 0 <= j < old_items.len() && old_items[j].0@ == a;
                            assert(self.items@[j].0@ == a);
                        }
                    }
                    assert forall|j: int| 0 <= j < self.items@.len() implies m2.contains_key(
                        (#[trigger] self.items@[j]).0@,
                    ) && m2[self.items@[j].0@] == self.items@[j].1 by {
                        if j < n {
                            assert(old_items[j] == self.items@[j]);
                        }
                    }
                    assert forall|a: int, b: int|
                        0 <= a < self.items@.len() && 0 <= b < self.items@.len() && a
                            != b implies (#[trigger] self.items@[a]).0@ != (
                    #[trigger] self.items@[b]).0@ by {
                        if a < n && b < n {
                            assert(old_items[a] == self.items@[a]);
                            assert(old_items[b] == self.items@[b]);
                        } else if a < n {
                            assert(old_items[a] == self.items@[a]);
                            assert(old(self).map@.contains_key(old_items[a].0@));
                        } else {
                            assert(old_items[b] == self.items@[b]);
                            assert(old(self).map@.contains_key(old_items[b].0@));
                        }
                    }
                }
            },
        }
    }

    /// Takes the value stored under `k` out of the registry.
    pub fn remove(&mut self, k: &str) -> (r: Option<V>)
        requires
            old(self).wf(),
        ensures
            final(self).wf(),
            final(self)@ == old(self)@.remove(k@),
            r == (if old(self)@.contains_key(k@) {
                Some(old(self)@[k@])
            } else {
                None::<V>
            }),
    {
        match self.find(k) {
            Some(i) => {
                let ghost old_items = self.items@;
                let ghost m2 = self.map@.remove(k@);
                let (_, v) = self.items.remove(i);
                self.map = Ghost(m2);
                proof {
                    assert(self.items@ == old_items.remove(i as int));
                    assert forall|a: Seq<char>| #[trigger] m2.contains_key(a) implies exists|j: int|
                        0 <= j < self.items@.len() && self.items@[j].0@ == a by {
                        assert(old(self).map@.contains_key(a));
                        let j = choose|j: int| 0 <= j < old_items.len() && old_items[j].0@ == a;
                        assert(j != i);
                        if j < i {
                            assert(self.items@[j].0@ == a);
                        } else {
                            assert(self.items@[j - 1].0@ == a);
                        }
                    }
                    assert forall|j: int| 0 <= j < self.items@.len() implies m2.contains_key(
                        (#[trigger] self.items@[j]).0@,
                    ) && m2[self.items@[j].0@] == self.items@[j].1 by {
                        if j < i {
                            assert(old_items[j] == self.items@[j]);
                            assert(old_items[j].0@ != old_items[i as int].0@);
                        } else {
                            assert(old_items[j + 1] == self.items@[j]);
                            assert(old_items[j + 1].0@ != old_items[i as int].0@);
                        }
                    }
                    assert forall|a: int, b: int|
                        0 <= a < self.items@.len() && 0 <= b < self.items@.len() && a
                            != b implies (#[trigger] self.items@[a]).0@ != (
                    #[trigger] self.items@[b]).0@ by {
                        let oa = if a < i {
                            a
                        } else {
                            a + 1
                        };
                        let ob = if b < i {
                            b
                        } else {
                            b + 1
                        };
                        assert(old_items[oa] == self.items@[a]);
                        assert(old_items[ob] == self.items@[b]);
                    }
                }
                Some(v)
            },
            None => {
                assert(self.map@.remove(k@) =~= self.map@);
                None
            },
        }
    }
}


/// Latest values after storing each entry in order; a later entry for a key
/// replaces an earlier one.
pub open spec fn ingest_spec(m: Map<Seq<char>, Val>, es: Seq<Entry>) -> Map<Seq<char>, Val>
    decreases es.len(),
{
    if es.len() == 0 {
        m
    } else {
        ingest_spec(m, es.drop_last()).insert(es.last().key@, es.last().value)
    }
}

pub open spec fn lookup<V>(m: Map<Seq<char>, V>, k: Seq<char>) -> Option<V> {
    if m.contains_key(k) {
        Some(m[k])
    } else {
        None
    }
}

/// `es` holds each key of `m` once, with its value.
pub open spec fn lists_entries(es: Seq<Entry>, m: Map<Seq<char>, Val>) -> bool {
    &&& forall|i: int|
        0 <= i < es.len() ==> m.contains_key((#[trigger] es[i]).key@) && m[es[i].key@]
            == es[i].value
    &&& forall|k: Seq<char>| #[trigger] m.contains_key(k) ==> exists|i: int| 0 <= i < es.len() && es[i].key@ == k
    &&& forall|i: int, j: int|
        0 <= i < es.len() && 0 <= j < es.len() && i != j ==> (#[trigger] es[i]).key@ != (
        #[trigger] es[j]).key@
}

/// The latest value of each point of one device.
pub struct LatestTable {
    values: Registry<Val>,
}

impl View for LatestTable {
    type V = Map<Seq<char>, Val>;

    closed spec fn view(&self) -> Map<Seq<char>, Val> {
        self.values@
    }
}

impl LatestTable {
    pub closed spec fn wf(&self) -> bool {
        self.values.wf()
    }

    pub fn new() -> (r: LatestTable)
        ensures
            r.wf(),
            r@ == Map::<Seq<char>, Val>::empty(),
    {
        LatestTable { values: Registry::new() }
    }

    /// Stores each entry whose value differs from the one held for its key;
    /// an equal value leaves the table as it is.
    pub fn ingest(&mut self, msg: Vec<Entry>)
        requires
            old(self).wf(),
        ensures
            final(self).wf(),
            final(self)@ == ingest_spec(old(self)@, msg@),
    {
        let mut i: usize = 0;
        proof {
            assert(msg@.subrange(0, 0) =~= Seq::<Entry>::empty());
        }
        while i < msg.len()
            invariant
                self.wf(),
                i <= msg@.len(),
                self@ == ingest_spec(old(self)@, msg@.subrange(0, i as int)),
            decreases msg@.len() - i,
        {
            let e = &msg[i];
            proof {
                assert(msg@.subrange(0, i + 1).drop_last() =~= msg@.subrange(0, i as int));
                assert(msg@.subrange(0, i + 1).last() == msg@[i as int]);
            }
            let changed = match self.values.get(e.key.as_str()) {
                Some(v) => *v != e.value,
                None => true,
            };
            if changed {
                self.values.insert(e.key.clone(), e.value);
            } else {
                assert(self@.insert(e.key@, e.value) =~= self@);
            }
            i = i + 1;
        }
        proof {
            assert(msg@.subrange(0, msg@.len() as int) =~= msg@);
        }
    }

    pub fn read(&self, key: &str) -> (r: Option<Val>)
        requires
            self.wf(),
        ensures
            r == lookup(self@, key@),
    {
        match self.values.get(key) {
            Some(v) => Some(*v),
            None => None,
        }
    }

    /// A copy of every key and its latest value, in the order in which the
    /// keys first arrived.
    pub fn snapshot(&self) -> (r: Vec<Entry>)
        requires
            self.wf(),
        ensures
            lists_entries(r@, self@),
    {
        let items = &self.values.items;
        let mut out: Vec<Entry> = Vec::new();
        let mut i: usize = 0;
        while i < items.len()
            invariant
                self.wf(),
                items@ == self.values.items@,
                i <= items@.len(),
                out@.len() == i,
                forall|j: int|
                    0 <= j < i ==> (#[trigger] out@[j]).key@ == items@[j].0@ && out@[j].value
                        == items@[j].1,
            decreases items@.len() - i,
        {
            out.push(Entry { key: items[i].0.clone(), value: items[i].1 });
            i = i + 1;
        }
        proof {
            assert forall|k: Seq<char>| #[trigger] self@.contains_key(k) implies exists|j: int|
                0 <= j < out@.len() && out@[j].key@ == k by {
                let j = choose|j: int| 0 <= j < items@.len() && items@[j].0@ == k;
                assert(out@[j].key@ == k);
            }
            assert forall|a: int, b: int|
                0 <= a < out@.len() && 0 <= b < out@.len() && a != b implies (
            #[trigger] out@[a]).key@ != (#[trigger] out@[b]).key@ by {
                assert(items@[a].0@ != items@[b].0@);
            }
        }
        out
    }
}

/// The hub: latest values by device, and at most one downlink sender of type
/// `S` per device.
pub struct DataCenter<S> {
    latest: Registry<LatestTable>,
    down_chan: Registry<S>,
}

impl<S> DataCenter<S> {
    pub closed spec fn wf(&self) -> bool {
        &&& self.latest.wf()
        &&& self.down_chan.wf()
        &&& forall|d: Seq<char>| #[trigger] self.latest@.contains_key(d) ==> self.latest@[d].wf()
    }

    /// Latest values by device id.
    pub closed spec fn latest_view(&self) -> Map<Seq<char>, Map<Seq<char>, Val>> {
        self.latest@.map_values(|t: LatestTable| t@)
    }

    /// Registered downlink senders by device id.
    pub closed spec fn senders(&self) -> Map<Seq<char>, S> {
        self.down_chan@
    }

    /// An empty hub; `dev_len` is the expected number of devices.
    pub fn new(dev_len: usize) -> (r: DataCenter<S>)
        ensures
            r.wf(),
            r.latest_view() == Map::<Seq<char>, Map<Seq<char>, Val>>::empty(),
            r.senders() == Map::<Seq<char>, S>::empty(),
    {
        let r = DataCenter {
            latest: Registry::with_capacity(dev_len),
            down_chan: Registry::with_capacity(dev_len),
        };
        assert(r.latest_view() =~= Map::<Seq<char>, Map<Seq<char>, Val>>::empty());
        r
    }

    /// Records a device's readings; the device's table is created on its
    /// first ingest.
    pub fn ingest(&mut self, dev: &str, msg: Vec<Entry>)
        requires
            old(self).wf(),
        ensures
            final(self).wf(),
            final(self).senders() == old(self).senders(),
            final(self).latest_view() == old(self).latest_view().insert(
                dev@,
                ingest_spec(
                    if old(self).latest_view().contains_key(dev@) {
                        old(self).latest_view()[dev@]
                    } else {
                        Map::empty()
                    },
                    msg@,
                ),
            ),
    {
        let mut table = match self.latest.remove(dev) {
            Some(t) => t,
            None => LatestTable::new(),
        };
        table.ingest(msg);
        let ghost t = table;
        self.latest.insert(dev.to_owned(), table);
        proof {
            assert forall|d: Seq<char>| #[trigger] self.latest@.contains_key(d) implies self.latest@[
                d].wf() by {
                if d != dev@ {
                    assert(old(self).latest@.contains_key(d));
                }
            }
            assert(self.latest_view() =~= old(self).latest_view().insert(dev@, t@));
        }
    }

    /// A copy of a device's latest values; none for a device never ingested.
    pub fn snapshot(&self, dev: &str) -> (r: Option<Vec<Entry>>)
        requires
            self.wf(),
        ensures
            match r {
                Some(es) => self.latest_view().contains_key(dev@) && lists_entries(
                    es@,
                    self.latest_view()[dev@],
                ),
                None => !self.latest_view().contains_key(dev@),
            },
    {
        match self.latest.get(dev) {
            Some(t) => Some(t.snapshot()),
            None => None,
        }
    }

    /// A device's latest value for one key.
    pub fn read(&self, dev: &str, key: &str) -> (r: Option<Val>)
        requires
            self.wf(),
        ensures
            r == (if self.latest_view().contains_key(dev@) {
                lookup(self.latest_view()[dev@], key@)
            } else {
                None
            }),
    {
        match self.latest.get(dev) {
            Some(t) => t.read(key),
            None => None,
        }
    }

    /// Registers a device's downlink sender; fails when one is registered.
    pub fn attach(&mut self, dev: &str, ch: S) -> (r: Result<(), DataCenterError>)
        requires
            old(self).wf(),
        ensures
            final(self).wf(),
            final(self).latest_view() == old(self).latest_view(),
            match r {
                Ok(()) => !old(self).senders().contains_key(dev@) && final(self).senders() == old(
                    self,
                ).senders().insert(dev@, ch),
                Err(DataCenterError::DevHasRegister(d)) => old(self).senders().contains_key(dev@)
                    && d@ == dev@ && final(self).senders() == old(self).senders(),
                Err(_) => false,
            },
    {
        if self.down_chan.contains(dev) {
            return Err(DataCenterError::DevHasRegister(dev.to_owned()));
        }
        self.down_chan.insert(dev.to_owned(), ch);
        Ok(())
    }

    /// Removes a device's downlink sender, if any.
    pub fn detach(&mut self, dev: &str)
        requires
            old(self).wf(),
        ensures
            final(self).wf(),
            final(self).latest_view() == old(self).latest_view(),
            final(self).senders() == old(self).senders().remove(dev@),
    {
        let _ = self.down_chan.remove(dev);
    }

    /// The sender to which a dispatch for the device goes.
    pub fn dispatch_target(&self, dev: &str) -> (r: Result<&S, DataCenterError>)
        requires
            self.wf(),
        ensures
            match r {
                Ok(s) => self.senders().contains_key(dev@) && *s == self.senders()[dev@],
                Err(DataCenterError::NotFoundDevError(d)) => !self.senders().contains_key(dev@)
                    && d@ == dev@,
                Err(_) => false,
            },
    {
        match self.down_chan.get(dev) {
            Some(s) => Ok(s),
            None => Err(DataCenterError::NotFoundDevError(dev.to_owned())),
        }
    }
}

/// The downlink registration of one device: at most one sender.
pub struct DownlinkSlot<S> {
    sender: Option<S>,
}

impl<S> View for DownlinkSlot<S> {
    type V = Option<S>;

    closed spec fn view(&self) -> Option<S> {
        self.sender
    }
}

impl<S> DownlinkSlot<S> {
    pub fn new() -> (r: DownlinkSlot<S>)
        ensures
            r@ is None,
    {
        DownlinkSlot { sender: None }
    }

    /// Registers the device's sender; fails when one is registered.
    pub fn attach(&mut self, dev: &str, ch: S) -> (r: Result<(), DataCenterError>)
        ensures
            match r {
                Ok(()) => old(self)@ is None && final(self)@ == Some(ch),
                Err(DataCenterError::DevHasRegister(d)) => old(self)@ is Some && d@ == dev@
                    && final(self)@ == old(self)@,
                Err(_) => false,
            },
    {
        if self.sender.is_some() {
            return Err(DataCenterError::DevHasRegister(dev.to_owned()));
        }
        self.sender = Some(ch);
        Ok(())
    }

    /// Removes the sender, if any.
    pub fn detach(&mut self)
        ensures
            final(self)@ is None,
    {
        self.sender = None;
    }

    /// The sender to which a dispatch for device `dev` goes.
    pub fn dispatch_target(&self, dev: &str) -> (r: Result<&S, DataCenterError>)
        ensures
            match r {
                Ok(s) => self@ == Some(*s),
                Err(DataCenterError::NotFoundDevError(d)) => self@ is None && d@ == dev@,
                Err(_) => false,
            },
    {
        match &self.sender {
            Some(s) => Ok(s),
            None => Err(DataCenterError::NotFoundDevError(dev.to_owned())),
        }
    }
}

/// Value of the last entry for key `k` in `es`.
pub open spec fn last_value(es: Seq<Entry>, k: Seq<char>) -> Option<Val>
    decreases es.len(),
{
    if es.len() == 0 {
        None
    } else if es.last().key@ == k {
        Some(es.last().value)
    } else {
        last_value(es.drop_last(), k)
    }
}

/// The entries of several ingest payloads, payload after payload.
pub open spec fn all_entries(ms: Seq<Seq<Entry>>) -> Seq<Entry>
    decreases ms.len(),
{
    if ms.len() == 0 {
        Seq::empty()
    } else {
        all_entries(ms.drop_last()) + ms.last()
    }
}

/// Latest values after one ingest call per payload of `ms`, in order.
pub open spec fn ingest_calls(m: Map<Seq<char>, Val>, ms: Seq<Seq<Entry>>) -> Map<Seq<char>, Val>
    decreases ms.len(),
{
    if ms.len() == 0 {
        m
    } else {
        ingest_spec(ingest_calls(m, ms.drop_last()), ms.last())
    }
}

proof fn lemma_ingest_append(m: Map<Seq<char>, Val>, a: Seq<Entry>, b: Seq<Entry>)
    ensures
        ingest_spec(m, a + b) == ingest_spec(ingest_spec(m, a), b),
    decreases b.len(),
{
    if b.len() == 0 {
        assert(a + b =~= a);
    } else {
        assert((a + b).drop_last() =~= a + b.drop_last());
        assert((a + b).last() == b.last());
        lemma_ingest_append(m, a, b.drop_last());
    }
}

proof fn lemma_ingest_lookup(m: Map<Seq<char>, Val>, es: Seq<Entry>, k: Seq<char>)
    ensures
        lookup(ingest_spec(m, es), k) == (match last_value(es, k) {
            Some(v) => Some(v),
            None => lookup(m, k),
        }),
    decreases es.len(),
{
    if es.len() > 0 {
        lemma_ingest_lookup(m, es.drop_last(), k);
    }
}

proof fn lemma_ingest_calls_flat(m: Map<Seq<char>, Val>, ms: Seq<Seq<Entry>>)
    ensures
        ingest_calls(m, ms) == ingest_spec(m, all_entries(ms)),
    decreases ms.len(),
{
    if ms.len() > 0 {
        lemma_ingest_calls_flat(m, ms.drop_last());
        lemma_ingest_append(m, all_entries(ms.drop_last()), ms.last());
    }
}

/// After any sequence of ingest calls on a device, the value read for a key
/// is the last value given for it over all the calls' entries; a key that no
/// call mentions keeps the value it had.
pub proof fn lemma_last_ingest_wins(m: Map<Seq<char>, Val>, ms: Seq<Seq<Entry>>, k: Seq<char>)
    ensures
        lookup(ingest_calls(m, ms), k) == (match last_value(all_entries(ms), k) {
            Some(v) => Some(v),
            None => lookup(m, k),
        }),
{
    lemma_ingest_calls_flat(m, ms);
    lemma_ingest_lookup(m, all_entries(ms), k);
}

/// Ingesting a value equal to the stored one changes nothing observable.
pub proof fn lemma_equal_ingest_idempotent(m: Map<Seq<char>, Val>, e: Entry)
    requires
        m.contains_key(e.key@),
        m[e.key@] == e.value,
    ensures
        ingest_spec(m, seq![e]) == m,
{
    assert(seq![e].drop_last() =~= Seq::<Entry>::empty());
    assert(ingest_spec(m, Seq::<Entry>::empty()) == m);
    assert(seq![e].last() == e);
    assert(ingest_spec(m, seq![e]) == ingest_spec(m, seq![e].drop_last()).insert(e.key@, e.value));
    assert(m.insert(e.key@, e.value) =~= m);
}

/// After a device is detached, a dispatch to it finds no sender.
pub proof fn lemma_detached_not_found<S>(senders: Map<Seq<char>, S>, dev: Seq<char>)
    ensures
        !senders.remove(dev).contains_key(dev),
{
}

} // verus!
