use vstd::prelude::*;

use crate::models::{Acronym, AcronymView, Occurance};
use crate::order::{acronym_views, distinct_ids, insert_sorted, sorted_by_key_spec};

verus! {

broadcast use vstd::seq_lib::group_seq_properties;

/// The key of a recorded occurrence: thread, message, acronym identifier.
pub type OccurrenceKey = (Seq<char>, Seq<char>, i32);

/// The keys of a sequence of detections.
pub open spec fn occurrence_keys(s: Seq<Occurance>) -> Seq<OccurrenceKey> {
    s.map_values(|o: Occurance| o@)
}

/// `after` is what recording `detections` into `before` leaves, `count` of
/// its keys being new: the old keys stay first and in place, every key is
/// held once, and the keys are those of `before` and of `detections`.
pub open spec fn recorded_after(
    before: Seq<OccurrenceKey>,
    detections: Seq<OccurrenceKey>,
    after: Seq<OccurrenceKey>,
    count: int,
) -> bool {
    &&& after.no_duplicates()
    &&& 0 <= count
    &&& after.len() == before.len() + count
    &&& after.take(before.len() as int) == before
    &&& after.to_set() == before.to_set().union(detections.to_set())
}

/// Whether some recorded key belongs to `thread` and names acronym `id`.
pub open spec fn mentions(s: Seq<OccurrenceKey>, thread: Seq<char>, id: i32) -> bool {
    exists|k: int| 0 <= k < s.len() && (#[trigger] s[k]).0 == thread && s[k].2 == id
}

/// The occurrences recorded so far, each key once.
pub struct OccurrenceStore {
    records: Vec<Occurance>,
}

impl View for OccurrenceStore {
    type V = Seq<OccurrenceKey>;

    closed spec fn view(&self) -> Seq<OccurrenceKey> {
        occurrence_keys(self.records@)
    }
}

impl OccurrenceStore {
    /// No key is recorded twice.
    pub open spec fn wf(&self) -> bool {
        self@.no_duplicates()
    }

    /// A store with nothing recorded.
    pub fn new() -> (r: OccurrenceStore)
        ensures
            r.wf(),
            r@ == Seq::<OccurrenceKey>::empty(),
    {
        let r = OccurrenceStore { records: Vec::new() };
        assert(r@ =~= Seq::<OccurrenceKey>::empty());
        r
    }

    /// The number of recorded occurrences.
    pub fn len(&self) -> (r: usize)
        ensures
            r == self@.len(),
    {
        self.records.len()
    }

    /// The recorded occurrences, oldest first.
    pub fn records(&self) -> (r: &Vec<Occurance>)
        ensures
            occurrence_keys(r@) == self@,
    {
        &self.records
    }

    /// Whether the key of `o` is recorded.
    pub fn contains(&self, o: &Occurance) -> (r: bool)
        ensures
            r == self@.contains(o@),
    {
        let mut i: usize = 0;
        while i < self.records.len()
            invariant
                i <= self.records@.len(),
                forall|k: int| 0 <= k < i ==> self@[k] != o@,
            decreases self.records@.len() - i,
        {
            assert(self@[i as int] == self.records@[i as int]@);
            if self.records[i].same_key(o) {
                return true;
            }
            i = i + 1;
        }
        false
    }

    /// Records each detection whose key is not recorded yet, and returns how
    /// many were new. A detection already recorded is no error: it changes
    /// nothing and is not counted.
    pub fn record(&mut self, detections: &Vec<Occurance>) -> (r: usize)
        requires
            old(self).wf(),
        ensures
            final(self).wf(),
            recorded_after(old(self)@, occurrence_keys(detections@), final(self)@, r as int),
    {
        let ghost start = self@;
        let ghost ds = occurrence_keys(detections@);
        let mut count: usize = 0;
        let mut i: usize = 0;
        assert(start.take(start.len() as int) =~= start);
        assert(ds.take(0).to_set() =~= Set::<OccurrenceKey>::empty());
        assert(start.to_set().union(ds.take(0).to_set()) =~= start.to_set());
        while i < detections.len()
            invariant
                i <= detections@.len(),
                ds == occurrence_keys(detections@),
                self.wf(),
                recorded_after(start, ds.take(i as int), self@, count as int),
            decreases detections@.len() - i,
        {
            let d = &detections[i];
            assert(ds[i as int] == d@);
            let ghost cur = self@;
            if !self.contains(d) {
                self.records.push(d.copied());
                assert(self@ =~= cur.push(d@));
                assert(self@.to_set() =~= cur.to_set().insert(d@));
                assert forall|a: int, b: int| 0 <= a < b < self@.len() implies self@[a]
                    != self@[b] by {
                    if b == cur.len() {
                        assert(cur.contains(self@[a]));
                    }
                }
                assert(self@.take(start.len() as int) =~= cur.take(start.len() as int));
                assert(self@.len() == self.records@.len());
                let n = self.records.len();
                assert(count < n);
                count = count + 1;
            }
            assert(ds.take(i + 1) =~= ds.take(i as int).push(d@));
            assert(ds.take(i + 1).to_set() =~= ds.take(i as int).to_set().insert(d@));
            assert(self@.to_set() =~= start.to_set().union(ds.take(i + 1).to_set()));
            i = i + 1;
        }
        assert(ds.take(i as int) =~= ds);
        count
    }

    /// Whether some occurrence of acronym `id` is recorded for `thread_id`.
    pub fn mentions(&self, thread_id: &String, id: i32) -> (r: bool)
        ensures
            r == mentions(self@, thread_id@, id),
    {
        let mut i: usize = 0;
        while i < self.records.len()
            invariant
                i <= self.records@.len(),
                forall|k: int| 0 <= k < i ==> !((#[trigger] self@[k]).0 == thread_id@ && self@[k].2 == id),
            decreases self.records@.len() - i,
        {
            assert(self@[i as int] == self.records@[i as int]@);
            if self.records[i].acronym_id == id && self.records[i].thread_id == *thread_id {
                return true;
            }
            i = i + 1;
        }
        false
    }

    /// The acronyms of `vocab` recorded for `thread_id`, each once, in order
    /// of their keys; empty for a thread with nothing recorded.
    pub fn acronyms_for_thread(&self, thread_id: &String, vocab: &Vec<Acronym>) -> (r: Vec<Acronym>)
        requires
            distinct_ids(acronym_views(vocab@)),
        ensures
            sorted_by_key_spec(acronym_views(r@)),
            distinct_ids(acronym_views(r@)),
            forall|x: AcronymView|
                acronym_views(r@).contains(x) <==> (acronym_views(vocab@).contains(x) && mentions(
                    self@,
                    thread_id@,
                    x.id,
                )),
    {
        let ghost vs = acronym_views(vocab@);
        let mut r: Vec<Acronym> = Vec::new();
        let mut i: usize = 0;
        assert(acronym_views(r@) =~= Seq::<AcronymView>::empty());
        while i < vocab.len()
            invariant
                i <= vocab@.len(),
                vs == acronym_views(vocab@),
                distinct_ids(vs),
                sorted_by_key_spec(acronym_views(r@)),
                distinct_ids(acronym_views(r@)),
                forall|x: AcronymView|
                    acronym_views(r@).contains(x) <==> (vs.take(i as int).contains(x) && mentions(
                        self@,
                        thread_id@,
                        x.id,
                    )),
            decreases vocab@.len() - i,
        {
            let ghost before = acronym_views(r@);
            let a = &vocab[i];
            assert(vs[i as int] == a@);
            assert(vs.take(i + 1) =~= vs.take(i as int).push(a@));
            if self.mentions(thread_id, a.id) {
                assert forall|k: int| 0 <= k < r@.len() implies (#[trigger] r@[k]).id != a.id by {
                    assert(before[k] == r@[k]@);
                    assert(before.contains(before[k]));
                    assert(vs.take(i as int).contains(before[k]));
                    let j = choose|j: int|
                        0 <= j < vs.take(i as int).len() && vs.take(i as int)[j] == before[k];
                    assert(vs[j] == before[k]);
                    assert(vs[j].id != vs[i as int].id);
                }
                let p = insert_sorted(&mut r, a.copied());
                let ghost after = acronym_views(r@);
                assert forall|x: AcronymView| after.contains(x) <==> (before.contains(x) || x == a@) by {
                    if after.contains(x) {
                        let k = choose|k: int| 0 <= k < after.len() && after[k] == x;
                        if k < p {
                            assert(before[k] == x);
                        } else if k > p {
                            assert(before[k - 1] == x);
                        }
                    }
                    if before.contains(x) {
                        let k = choose|k: int| 0 <= k < before.len() && before[k] == x;
                        if k < p {
                            assert(after[k] == x);
                        } else {
                            assert(after[k + 1] == x);
                        }
                    }
                    if x == a@ {
                        assert(after[p as int] == x);
                    }
                }
            }
            i = i + 1;
        }
        assert(vs.take(i as int) =~= vs);
        r
    }
}

/// Recording the same detections twice: when some of them are new to the
/// store, the first call counts more than zero; the second counts zero and
/// leaves the store as the first left it.
pub proof fn lemma_record_idempotent(
    s0: Seq<OccurrenceKey>,
    detections: Seq<OccurrenceKey>,
    s1: Seq<OccurrenceKey>,
    c1: int,
    s2: Seq<OccurrenceKey>,
    c2: int,
)
    requires
        recorded_after(s0, detections, s1, c1),
        recorded_after(s1, detections, s2, c2),
        exists|k: int| 0 <= k < detections.len() && !s0.contains(#[trigger] detections[k]),
    ensures
        c1 > 0,
        c2 == 0,
        s2 == s1,
{
    let k = choose|k: int| 0 <= k < detections.len() && !s0.contains(#[trigger] detections[k]);
    assert(detections.to_set().contains(detections[k]));
    assert(s1.to_set().contains(detections[k]));
    if c1 <= 0 {
        assert(s1 =~= s1.take(s0.len() as int));
    }
    assert(s2.to_set() =~= s1.to_set());
    if c2 > 0 {
        let x = s2[s1.len() as int];
        assert(s2.to_set().contains(x));
        assert(s1.contains(x));
        let j = choose|j: int| 0 <= j < s1.len() && s1[j] == x;
        assert(s2.take(s1.len() as int)[j] == s2[j]);
    }
    assert(s2 =~= s2.take(s1.len() as int));
}

} // verus!
