//! State as a map from keys to byte strings, pending writes layered over it,
//! and the bridge that runs a call of the on-chain code against both.

use crate::codec::{bytes_eq, to_vec};
use crate::error::Error;
use crate::journal::{latest, lemma_latest_concat, lemma_latest_is_some_pair, lemma_latest_push};
use vstd::prelude::*;

verus! {

/// One write to the state: the key, and the new value or `None` where the
/// key is cleared.
pub type StorageWrite = (Vec<u8>, Option<Vec<u8>>);

/// The writes of one execution, in the order in which they were made.
pub type StorageUpdate = Vec<StorageWrite>;

/// What a stored or written value holds.
pub open spec fn value_view(v: Option<Vec<u8>>) -> Option<Seq<u8>> {
    match v {
        Some(bytes) => Some(bytes@),
        None => None,
    }
}

/// What a write holds.
pub open spec fn write_view(w: StorageWrite) -> (Seq<u8>, Option<Seq<u8>>) {
    (w.0@, value_view(w.1))
}

/// What a run of writes holds.
pub open spec fn writes_view(ws: Seq<StorageWrite>) -> Seq<(Seq<u8>, Option<Seq<u8>>)> {
    ws.map_values(|w: StorageWrite| write_view(w))
}

/// What a list of key-value pairs holds, as writes that put each value.
pub open spec fn pairs_view(pairs: Seq<(Vec<u8>, Vec<u8>)>) -> Seq<(Seq<u8>, Option<Seq<u8>>)> {
    pairs.map_values(|p: (Vec<u8>, Vec<u8>)| (p.0@, Some(p.1@)))
}

/// The map `base` after `writes`: each key holds what its latest write put
/// there, nothing where that write cleared it, and what `base` holds where
/// no write names it.
pub open spec fn overlaid(
    base: Map<Seq<u8>, Seq<u8>>,
    writes: Seq<(Seq<u8>, Option<Seq<u8>>)>,
) -> Map<Seq<u8>, Seq<u8>> {
    Map::new(
        |k: Seq<u8>|
            match latest(writes, k) {
                Some(Some(_)) => true,
                Some(None) => false,
                None => base.contains_key(k),
            },
        |k: Seq<u8>|
            match latest(writes, k) {
                Some(Some(v)) => v,
                _ => base[k],
            },
    )
}

/// What a key reads as when `writes` lie over `base`.
pub open spec fn read_through(
    base: Map<Seq<u8>, Seq<u8>>,
    writes: Seq<(Seq<u8>, Option<Seq<u8>>)>,
    key: Seq<u8>,
) -> Option<Seq<u8>> {
    match latest(writes, key) {
        Some(w) => w,
        None => if base.contains_key(key) {
            Some(base[key])
        } else {
            None
        },
    }
}

/// Reading through writes is looking up in the map after them.
pub proof fn lemma_read_through(
    base: Map<Seq<u8>, Seq<u8>>,
    writes: Seq<(Seq<u8>, Option<Seq<u8>>)>,
    key: Seq<u8>,
)
    ensures
        read_through(base, writes, key) == if overlaid(base, writes).contains_key(key) {
            Some(overlaid(base, writes)[key])
        } else {
            None
        },
{
}

/// Writes made in two runs have the effect of the two runs in a row.
pub proof fn lemma_overlaid_twice(
    base: Map<Seq<u8>, Seq<u8>>,
    first: Seq<(Seq<u8>, Option<Seq<u8>>)>,
    second: Seq<(Seq<u8>, Option<Seq<u8>>)>,
)
    ensures
        overlaid(overlaid(base, first), second) == overlaid(base, first + second),
{
    let left = overlaid(overlaid(base, first), second);
    let right = overlaid(base, first + second);
    assert forall|k: Seq<u8>| #[trigger] left.dom().contains(k) == right.dom().contains(k) by {
        lemma_latest_concat(first, second, k);
    }
    assert forall|k: Seq<u8>| left.dom().contains(k) implies #[trigger] left[k] == right[k] by {
        lemma_latest_concat(first, second, k);
    }
    assert(overlaid(overlaid(base, first), second) =~= overlaid(base, first + second));
}

/// No writes change nothing.
pub proof fn lemma_overlaid_nothing(base: Map<Seq<u8>, Seq<u8>>)
    ensures
        overlaid(base, Seq::empty()) == base,
{
    assert(overlaid(base, Seq::empty()) =~= base);
}

/// The latest write to `key` among `writes`.
pub fn find_latest<'a>(writes: &'a Vec<StorageWrite>, key: &[u8]) -> (r: Option<
    &'a Option<Vec<u8>>,
>)
    ensures
        match r {
            Some(v) => latest(writes_view(writes@), key@) == Some(value_view(*v)),
            None => latest(writes_view(writes@), key@).is_none(),
        },
{
    let ghost all = writes_view(writes@);
    let mut i: usize = writes.len();
    assert(all.take(i as int) =~= all);
    while i > 0
        invariant
            i <= writes@.len(),
            all == writes_view(writes@),
            latest(all, key@) == latest(all.take(i as int), key@),
        decreases i,
    {
        i = i - 1;
        assert(all.take(i + 1).last() == write_view(writes@[i as int]));
        assert(all.take(i + 1).drop_last() =~= all.take(i as int));
        if bytes_eq(writes[i].0.as_slice(), key) {
            return Some(&writes[i].1);
        }
    }
    assert(all.take(0) =~= Seq::<(Seq<u8>, Option<Seq<u8>>)>::empty());
    None
}

/// A copy of a value.
pub fn clone_value(value: &Option<Vec<u8>>) -> (r: Option<Vec<u8>>)
    ensures
        value_view(r) == value_view(*value),
{
    match value {
        Some(bytes) => Some(to_vec(bytes.as_slice())),
        None => None,
    }
}

/// Appends copies of `more` to `out`.
pub fn append_writes(out: &mut Vec<StorageWrite>, more: &Vec<StorageWrite>)
    ensures
        writes_view(final(out)@) == writes_view(old(out)@) + writes_view(more@),
{
    let mut i: usize = 0;
    assert(writes_view(out@) =~= writes_view(old(out)@) + writes_view(more@).take(0));
    while i < more.len()
        invariant
            i <= more@.len(),
            writes_view(out@) == writes_view(old(out)@) + writes_view(more@).take(i as int),
        decreases more@.len() - i,
    {
        let key = to_vec(more[i].0.as_slice());
        let value = clone_value(&more[i].1);
        let ghost before = writes_view(out@);
        out.push((key, value));
        i = i + 1;
        assert(writes_view(out@) =~= before.push(write_view(more@[i - 1])));
        assert(writes_view(out@) =~= writes_view(old(out)@) + writes_view(more@).take(i as int));
    }
    assert(writes_view(more@).take(more@.len() as int) =~= writes_view(more@));
}

/// A copy of a run of writes.
pub fn clone_writes(writes: &Vec<StorageWrite>) -> (r: Vec<StorageWrite>)
    ensures
        writes_view(r@) == writes_view(writes@),
{
    let mut out: Vec<StorageWrite> = Vec::new();
    append_writes(&mut out, writes);
    assert(writes_view(out@) =~= writes_view(writes@));
    out
}

/// A state held in memory: every key with the bytes stored under it.
#[derive(Debug, Default)]
pub struct InMemory {
    journal: Vec<StorageWrite>,
}

impl View for InMemory {
    type V = Map<Seq<u8>, Seq<u8>>;

    closed spec fn view(&self) -> Map<Seq<u8>, Seq<u8>> {
        overlaid(Map::empty(), writes_view(self.journal@))
    }
}

impl DeepView for InMemory {
    type V = Map<Seq<u8>, Seq<u8>>;

    open spec fn deep_view(&self) -> Map<Seq<u8>, Seq<u8>> {
        self@
    }
}

impl Clone for InMemory {
    fn clone(&self) -> (r: Self)
        ensures
            r@ == self@,
    {
        InMemory { journal: clone_writes(&self.journal) }
    }
}

impl InMemory {
    /// The state that holds nothing.
    pub fn new() -> (r: Self)
        ensures
            r@ == Map::<Seq<u8>, Seq<u8>>::empty(),
    {
        let r = InMemory { journal: Vec::new() };
        proof {
            assert(writes_view(r.journal@) =~= Seq::empty());
            lemma_overlaid_nothing(Map::empty());
        }
        r
    }

    /// The state that the pairs describe; of two pairs with one key the
    /// later counts.
    pub fn from_pairs(pairs: &Vec<(Vec<u8>, Vec<u8>)>) -> (r: Self)
        ensures
            r@ == overlaid(Map::empty(), pairs_view(pairs@)),
    {
        let mut journal: Vec<StorageWrite> = Vec::new();
        let mut i: usize = 0;
        assert(writes_view(journal@) =~= pairs_view(pairs@).take(0));
        while i < pairs.len()
            invariant
                i <= pairs@.len(),
                writes_view(journal@) == pairs_view(pairs@).take(i as int),
            decreases pairs@.len() - i,
        {
            let key = to_vec(pairs[i].0.as_slice());
            let value = to_vec(pairs[i].1.as_slice());
            let ghost before = writes_view(journal@);
            journal.push((key, Some(value)));
            i = i + 1;
            assert(writes_view(journal@) =~= before.push((pairs@[i - 1].0@, Some(pairs@[i - 1].1@))));
            assert(writes_view(journal@) =~= pairs_view(pairs@).take(i as int));
        }
        assert(pairs_view(pairs@).take(pairs@.len() as int) =~= pairs_view(pairs@));
        InMemory { journal }
    }

    /// The bytes stored under `key`, if any.
    pub fn storage(&self, key: &[u8]) -> (r: Option<&Vec<u8>>)
        ensures
            match r {
                Some(v) => self@.contains_key(key@) && self@[key@] == v@,
                None => !self@.contains_key(key@),
            },
    {
        match find_latest(&self.journal, key) {
            Some(Some(v)) => Some(v),
            Some(None) => None,
            None => None,
        }
    }

    /// The state after `changes`.
    pub fn update(&self, changes: &Vec<StorageWrite>) -> (r: Self)
        ensures
            r@ == overlaid(self@, writes_view(changes@)),
    {
        let mut journal = clone_writes(&self.journal);
        append_writes(&mut journal, changes);
        proof {
            lemma_overlaid_twice(
                Map::empty(),
                writes_view(self.journal@),
                writes_view(changes@),
            );
        }
        InMemory { journal }
    }

    /// Whether `self` holds under every key of its own writes what `other`
    /// holds there.
    fn agrees_with(&self, other: &InMemory) -> (r: bool)
        ensures
            r == (forall|i: int|
                0 <= i < self.journal@.len() ==> read_through(
                    Map::empty(),
                    writes_view(self.journal@),
                    (#[trigger] self.journal@[i]).0@,
                ) == read_through(
                    Map::empty(),
                    writes_view(other.journal@),
                    self.journal@[i].0@,
                )),
    {
        let mut i: usize = 0;
        while i < self.journal.len()
            invariant
                i <= self.journal@.len(),
                forall|j: int|
                    0 <= j < i ==> read_through(
                        Map::empty(),
                        writes_view(self.journal@),
                        (#[trigger] self.journal@[j]).0@,
                    ) == read_through(
                        Map::empty(),
                        writes_view(other.journal@),
                        self.journal@[j].0@,
                    ),
            decreases self.journal@.len() - i,
        {
            let key = self.journal[i].0.as_slice();
            let mine = self.storage(key);
            let theirs = other.storage(key);
            proof {
                lemma_read_through(Map::empty(), writes_view(self.journal@), key@);
                lemma_read_through(Map::empty(), writes_view(other.journal@), key@);
            }
            let same = match (mine, theirs) {
                (Some(a), Some(b)) => bytes_eq(a.as_slice(), b.as_slice()),
                (None, None) => true,
                _ => false,
            };
            if !same {
                return false;
            }
            i = i + 1;
        }
        true
    }

    /// Whether the two states hold the same bytes under the same keys.
    pub fn same_as(&self, other: &InMemory) -> (r: bool)
        ensures
            r == (self@ == other@),
    {
        let forth = self.agrees_with(other);
        let back = other.agrees_with(self);
        proof {
            let a = writes_view(self.journal@);
            let b = writes_view(other.journal@);
            let empty = Map::<Seq<u8>, Seq<u8>>::empty();
            assert forall|k: Seq<u8>|
                #![auto]
                true implies read_through(empty, a, k) == if self@.contains_key(k) {
                    Some(self@[k])
                } else {
                    None
                } by {
                lemma_read_through(empty, a, k);
            }
            assert forall|k: Seq<u8>|
                #![auto]
                true implies read_through(empty, b, k) == if other@.contains_key(k) {
                    Some(other@[k])
                } else {
                    None
                } by {
                lemma_read_through(empty, b, k);
            }
            if forth && back {
                assert forall|k: Seq<u8>| read_through(empty, a, k) == read_through(
                    empty,
                    b,
                    k,
                ) by {
                    if latest(a, k).is_some() {
                        let i = lemma_latest_is_some_pair(a, k);
                        assert(self.journal@[i].0@ == k);
                    } else if latest(b, k).is_some() {
                        let i = lemma_latest_is_some_pair(b, k);
                        assert(other.journal@[i].0@ == k);
                    }
                }
                assert forall|k: Seq<u8>| #[trigger]
                    self@.dom().contains(k) == other@.dom().contains(k) by {
                    assert(read_through(empty, a, k) == read_through(empty, b, k));
                }
                assert forall|k: Seq<u8>| self@.dom().contains(k) implies #[trigger] self@[k]
                    == other@[k] by {
                    assert(read_through(empty, a, k) == read_through(empty, b, k));
                }
                assert(self@ =~= other@);
            } else if !forth {
                let i = choose|i: int|
                    0 <= i < self.journal@.len() && read_through(
                        empty,
                        a,
                        (#[trigger] self.journal@[i]).0@,
                    ) != read_through(empty, b, self.journal@[i].0@);
                assert(self@ != other@);
            } else {
                let i = choose|i: int|
                    0 <= i < other.journal@.len() && read_through(
                        empty,
                        b,
                        (#[trigger] other.journal@[i]).0@,
                    ) != read_through(empty, a, other.journal@[i].0@);
                assert(self@ != other@);
            }
        }
        forth && back
    }
}

impl PartialEq for InMemory {
    fn eq(&self, other: &Self) -> (r: bool) {
        self.same_as(other)
    }
}

impl vstd::std_specs::cmp::PartialEqSpecImpl for InMemory {
    open spec fn obeys_eq_spec() -> bool {
        true
    }

    open spec fn eq_spec(&self, other: &Self) -> bool {
        self@ == other@
    }
}

impl Eq for InMemory {

}

/// Writes that lie over a state until they are persisted or dropped: those
/// that are settled, and over them those of the execution under way.
#[derive(Debug, Default)]
pub struct OverlayedChanges {
    /// The writes of the execution under way.
    pub prospective: Vec<StorageWrite>,
    /// The writes of the executions that were kept.
    pub committed: Vec<StorageWrite>,
}

impl OverlayedChanges {
    /// Whether there are no writes.
    pub open spec fn fresh(&self) -> bool {
        self.prospective@.len() == 0 && self.committed@.len() == 0
    }

    /// All the writes in order: the settled ones, then the prospective ones.
    pub open spec fn writes(&self) -> Seq<(Seq<u8>, Option<Seq<u8>>)> {
        writes_view(self.committed@) + writes_view(self.prospective@)
    }

    /// No writes.
    pub fn new() -> (r: Self)
        ensures
            r.fresh(),
            r.writes() == Seq::<(Seq<u8>, Option<Seq<u8>>)>::empty(),
    {
        let r = OverlayedChanges { prospective: Vec::new(), committed: Vec::new() };
        assert(r.writes() =~= Seq::empty());
        r
    }

    /// The latest write to `key`, if there is one: `Some(None)` where it
    /// cleared the key.
    pub fn storage(&self, key: &[u8]) -> (r: Option<&Option<Vec<u8>>>)
        ensures
            match r {
                Some(v) => latest(self.writes(), key@) == Some(value_view(*v)),
                None => latest(self.writes(), key@).is_none(),
            },
    {
        proof {
            lemma_latest_concat(
                writes_view(self.committed@),
                writes_view(self.prospective@),
                key@,
            );
        }
        match find_latest(&self.prospective, key) {
            Some(v) => Some(v),
            None => find_latest(&self.committed, key),
        }
    }

    /// Records a write of the execution under way.
    pub fn set_storage(&mut self, key: Vec<u8>, value: Option<Vec<u8>>)
        ensures
            final(self).writes() == old(self).writes().push((key@, value_view(value))),
            final(self).prospective@ == old(self).prospective@.push((key, value)),
            final(self).committed == old(self).committed,
    {
        self.prospective.push((key, value));
        assert(self.writes() =~= old(self).writes().push((key@, value_view(value))));
    }

    /// Drops the writes of the execution under way.
    pub fn discard_prospective(&mut self)
        ensures
            final(self).writes() == writes_view(old(self).committed@),
            final(self).prospective@.len() == 0,
            final(self).committed == old(self).committed,
    {
        self.prospective = Vec::new();
        assert(self.writes() =~= writes_view(old(self).committed@));
    }

    /// Keeps the writes of the execution under way.
    pub fn commit_prospective(&mut self)
        ensures
            final(self).writes() == old(self).writes(),
            final(self).prospective@.len() == 0,
    {
        append_writes(&mut self.committed, &self.prospective);
        self.prospective = Vec::new();
        assert(self.writes() =~= old(self).writes());
    }

    /// A copy of all the writes in order.
    pub fn to_update(&self) -> (r: Vec<StorageWrite>)
        ensures
            writes_view(r@) == self.writes(),
    {
        let mut out = clone_writes(&self.committed);
        append_writes(&mut out, &self.prospective);
        out
    }
}

/// What the on-chain code sees of the state while it runs: reads go to the
/// pending writes first and to the state behind them otherwise, writes are
/// recorded and leave the state as it is.
pub struct Ext<'a> {
    /// The pending writes.
    pub overlay: &'a mut OverlayedChanges,
    /// The state that the writes lie over.
    pub backend: &'a InMemory,
}

impl<'a> Ext<'a> {
    /// What `key` reads as.
    pub open spec fn value_at(&self, key: Seq<u8>) -> Option<Seq<u8>> {
        read_through(self.backend@, self.overlay.writes(), key)
    }

    /// The view of `backend` through `overlay`.
    pub fn new(overlay: &'a mut OverlayedChanges, backend: &'a InMemory) -> (r: Self)
        ensures
            *r.overlay == *old(overlay),
            *r.backend == *backend,
            *final(overlay) == *final(r.overlay),
    {
        Ext { overlay, backend }
    }

    /// Reads the bytes under `key`.
    pub fn storage(&self, key: &[u8]) -> (r: Option<Vec<u8>>)
        ensures
            value_view(r) == self.value_at(key@),
    {
        match self.overlay.storage(key) {
            Some(v) => clone_value(v),
            None => match self.backend.storage(key) {
                Some(v) => Some(to_vec(v.as_slice())),
                None => None,
            },
        }
    }

    /// Writes `value` under `key`, or clears the key where `value` is `None`.
    pub fn place_storage(&mut self, key: Vec<u8>, value: Option<Vec<u8>>)
        ensures
            final(self).overlay.writes() == old(self).overlay.writes().push(
                (key@, value_view(value)),
            ),
            final(self).backend == old(self).backend,
            final(self).value_at(key@) == value_view(value),
            forall|other: Seq<u8>|
                other != key@ ==> final(self).value_at(other) == old(self).value_at(other),
    {
        proof {
            assert forall|other: Seq<u8>|
                latest(
                    old(self).overlay.writes().push((key@, value_view(value))),
                    other,
                ) == if key@ == other {
                    Some(value_view(value))
                } else {
                    latest(old(self).overlay.writes(), other)
                } by {
                lemma_latest_push(old(self).overlay.writes(), (key@, value_view(value)), other);
            }
        }
        self.overlay.set_storage(key, value);
    }

    /// Writes `value` under `key`.
    pub fn set_storage(&mut self, key: Vec<u8>, value: Vec<u8>)
        ensures
            final(self).overlay.writes() == old(self).overlay.writes().push((key@, Some(value@))),
            final(self).backend == old(self).backend,
            final(self).value_at(key@) == Some(value@),
            forall|other: Seq<u8>|
                other != key@ ==> final(self).value_at(other) == old(self).value_at(other),
    {
        self.place_storage(key, Some(value));
    }

    /// Clears `key`.
    pub fn clear_storage(&mut self, key: &[u8])
        ensures
            final(self).overlay.writes() == old(self).overlay.writes().push((key@, None)),
            final(self).backend == old(self).backend,
            final(self).value_at(key@).is_none(),
            forall|other: Seq<u8>|
                other != key@ ==> final(self).value_at(other) == old(self).value_at(other),
    {
        self.place_storage(to_vec(key), None);
    }
}

/// The engine that runs the on-chain code. The client hands it the code, the
/// name of an entry point and the input, and a view of the state to read and
/// write; it answers with the bytes that the call returned, or with a
/// message where the call failed.
///
/// Nothing is asked of an executor here. Where a function of this library
/// calls one, its contract says what the executor was handed and gives the
/// result in terms of what the executor answered and wrote.
pub trait CodeExecutor {
    /// Runs `method` of `code` on `data`.
    fn call(&self, ext: &mut Ext, code: &[u8], method: &str, data: &[u8]) -> Result<
        Vec<u8>,
        String,
    >;
}

/// The key under which the state holds the on-chain code: `:code`.
pub open spec fn code_key() -> Seq<u8> {
    seq![0x3au8, 0x63u8, 0x6fu8, 0x64u8, 0x65u8]
}

/// The key under which the state holds the on-chain code.
pub fn code_key_bytes() -> (r: [u8; 5])
    ensures
        r@ == code_key(),
{
    let r: [u8; 5] = [0x3a, 0x63, 0x6f, 0x64, 0x65];
    assert(r@ =~= code_key());
    r
}

/// What a call of the on-chain code comes to, given what the executor
/// answered and the pending writes `left` that it left: where it returned,
/// the bytes and all the pending writes, which stay as they are; where it
/// failed, its message, and the writes of that call are dropped.
pub open spec fn concluded(
    left: OverlayedChanges,
    outcome: Result<Vec<u8>, String>,
    r: Result<(Vec<u8>, StorageUpdate), Error>,
    after: OverlayedChanges,
) -> bool {
    match outcome {
        Ok(out) => r matches Ok((bytes, update)) && bytes == out && writes_view(update@)
            == left.writes() && after == left,
        Err(message) => r matches Err(Error::Execution(m)) && m == message
            && after.prospective@.len() == 0 && after.committed == left.committed,
    }
}

/// Whether a call of the on-chain code of `state` on `input` was set up
/// over that state without pending writes: `handed` is the code, `data` is
/// the input, and `ext` is a view of the state through no writes.
pub open spec fn set_up(
    ext: &mut Ext,
    handed: &[u8],
    data: &[u8],
    state: Map<Seq<u8>, Seq<u8>>,
    input: Seq<u8>,
) -> bool {
    state.contains_key(code_key()) && handed@ == state[code_key()] && data@ == input
        && ext.backend@ == state && ext.overlay.fresh()
}

/// Whether a call of the on-chain code on `input` was set up over `state`
/// with the pending writes `pending`: `handed` is what `:code` reads as,
/// `data` is the input, and `ext` is a view of the state through the writes.
pub open spec fn set_up_over(
    ext: &mut Ext,
    handed: &[u8],
    data: &[u8],
    state: Map<Seq<u8>, Seq<u8>>,
    pending: Seq<(Seq<u8>, Option<Seq<u8>>)>,
    input: Seq<u8>,
) -> bool {
    read_through(state, pending, code_key()) == Some(handed@) && data@ == input && ext.backend@
        == state && ext.overlay.writes() == pending
}

/// What a call of the on-chain code leaves behind, given what the executor
/// answered.
pub fn conclude(overlay: &mut OverlayedChanges, outcome: Result<Vec<u8>, String>) -> (r: Result<
    (Vec<u8>, StorageUpdate),
    Error,
>)
    ensures
        concluded(*old(overlay), outcome, r, *final(overlay)),
{
    match outcome {
        Ok(out) => {
            let update = overlay.to_update();
            Ok((out, update))
        },
        Err(message) => {
            overlay.discard_prospective();
            Err(Error::Execution(message))
        },
    }
}

/// Runs `method` of the on-chain code on `call_data`, over the state
/// `backend` with the pending writes `overlay`.
///
/// The code is what `:code` reads as. Where nothing is stored there the call
/// fails and the executor is not asked. Otherwise the executor is handed
/// that code, `method`, `call_data` and a view of the state through the
/// pending writes, and `concluded` says what its answer comes to.
pub fn execute<E: CodeExecutor>(
    backend: &InMemory,
    overlay: &mut OverlayedChanges,
    exec: &E,
    method: &str,
    call_data: &[u8],
) -> (r: Result<(Vec<u8>, StorageUpdate), Error>)
    ensures
        match read_through(backend@, old(overlay).writes(), code_key()) {
            Some(code) => exists|ext: &mut Ext, handed: &[u8], outcome: Result<Vec<u8>, String>|
                #[trigger] call_ensures(E::call, (exec, ext, handed, method, call_data), outcome)
                    && handed@ == code && ext.backend@ == backend@ && *ext.overlay == *old(overlay)
                    && concluded(*final(ext.overlay), outcome, r, *final(overlay)),
            None => r matches Err(Error::Execution(_)) && final(overlay).prospective@.len() == 0
                && final(overlay).committed == old(overlay).committed,
        },
{
    let key = code_key_bytes();
    let code = {
        let ext = Ext::new(overlay, backend);
        ext.storage(key.as_slice())
    };
    match code {
        Some(code) => {
            let outcome = {
                let mut ext = Ext::new(overlay, backend);
                exec.call(&mut ext, code.as_slice(), method, call_data)
            };
            conclude(overlay, outcome)
        },
        None => {
            conclude(overlay, Err("the state holds no code".to_string()))
        },
    }
}

/// Runs `f` with a view of `backend` through `overlay`, and returns what `f`
/// returns. The view is gone when the call is over, whatever `f` did.
pub fn with_externalities<T, F: FnOnce(&mut Ext) -> T>(
    backend: &InMemory,
    overlay: &mut OverlayedChanges,
    f: F,
) -> (r: T)
    requires
        forall|ext: &mut Ext| #[trigger] f.requires((ext,)),
    ensures
        exists|ext: &mut Ext|
            #[trigger] f.ensures((ext,), r) && ext.backend@ == backend@
                && *ext.overlay == *old(overlay) && *final(ext.overlay) == *final(overlay),
{
    let mut ext = Ext::new(overlay, backend);
    f(&mut ext)
}

} // verus!
