use vstd::prelude::*;

use crate::record::{
    event_payload, event_text, matches_filter, texts, CertificateRecord, RecordView,
};
use crate::query::{select_by_status, views};
use crate::status::{str_eq, CertStatus};

verus! {

/// Whether some record of `s` carries `id`.
pub open spec fn has_id(s: Seq<RecordView>, id: Seq<char>) -> bool {
    exists|i: int| 0 <= i < s.len() && #[trigger] s[i].certificate_id == id
}

/// No two records of `s` share an id.
pub open spec fn unique_ids(s: Seq<RecordView>) -> bool {
    forall|i: int, j: int|
        0 <= i < s.len() && 0 <= j < s.len() && i != j ==> #[trigger] s[i].certificate_id
            != #[trigger] s[j].certificate_id
}

/// The store seen as a map from id to record.
pub open spec fn model_of(s: Seq<RecordView>) -> Map<Seq<char>, RecordView> {
    Map::new(
        |id: Seq<char>| has_id(s, id),
        |id: Seq<char>| s[choose|i: int| 0 <= i < s.len() && #[trigger] s[i].certificate_id == id],
    )
}

/// With unique ids, the model holds each record under its own id.
pub proof fn lemma_model_at(s: Seq<RecordView>, k: int)
    requires
        unique_ids(s),
        0 <= k < s.len(),
    ensures
        model_of(s).contains_key(s[k].certificate_id),
        model_of(s)[s[k].certificate_id] == s[k],
{
    let id = s[k].certificate_id;
    assert(has_id(s, id));
    let i = choose|i: int| 0 <= i < s.len() && #[trigger] s[i].certificate_id == id;
    assert(i == k);
}

/// Every record of the model stands at some position of the sequence.
pub proof fn lemma_model_has(s: Seq<RecordView>, id: Seq<char>)
    requires
        unique_ids(s),
        model_of(s).contains_key(id),
    ensures
        exists|i: int| 0 <= i < s.len() && s[i] == model_of(s)[id],
{
    let i = choose|i: int| 0 <= i < s.len() && #[trigger] s[i].certificate_id == id;
    lemma_model_at(s, i);
}

/// Replacing the record at `k` by one with the same id replaces it in the model.
proof fn lemma_model_update(s: Seq<RecordView>, k: int, v: RecordView)
    requires
        unique_ids(s),
        0 <= k < s.len(),
        v.certificate_id == s[k].certificate_id,
    ensures
        unique_ids(s.update(k, v)),
        model_of(s.update(k, v)) =~= model_of(s).insert(v.certificate_id, v),
{
    let t = s.update(k, v);
    assert(unique_ids(t)) by {
        assert forall|i: int, j: int|
            0 <= i < t.len() && 0 <= j < t.len() && i != j implies #[trigger] t[i].certificate_id
                != #[trigger] t[j].certificate_id by {
            assert(s[i].certificate_id != s[j].certificate_id);
        }
    }
    lemma_model_at(t, k);
    assert forall|id: Seq<char>| #[trigger] has_id(t, id) == (has_id(s, id) || id == v.certificate_id) by {
        if has_id(s, id) {
            let j = choose|j: int| 0 <= j < s.len() && #[trigger] s[j].certificate_id == id;
            assert(t[j].certificate_id == id);
        }
        if has_id(t, id) {
            let j = choose|j: int| 0 <= j < t.len() && #[trigger] t[j].certificate_id == id;
            if j != k {
                assert(s[j].certificate_id == id);
            }
        }
    }
    assert forall|id: Seq<char>| #[trigger] model_of(t).contains_key(id) && id != v.certificate_id
        implies model_of(t)[id] == model_of(s)[id] by {
        let j = choose|j: int| 0 <= j < t.len() && #[trigger] t[j].certificate_id == id;
        assert(j != k);
        lemma_model_at(t, j);
        lemma_model_at(s, j);
    }
}

/// Appending a record with a fresh id adds it to the model.
proof fn lemma_model_push(s: Seq<RecordView>, v: RecordView)
    requires
        unique_ids(s),
        !has_id(s, v.certificate_id),
    ensures
        unique_ids(s.push(v)),
        model_of(s.push(v)) =~= model_of(s).insert(v.certificate_id, v),
{
    let t = s.push(v);
    assert(unique_ids(t)) by {
        assert forall|i: int, j: int|
            0 <= i < t.len() && 0 <= j < t.len() && i != j implies #[trigger] t[i].certificate_id
                != #[trigger] t[j].certificate_id by {
            if i < s.len() && j < s.len() {
                assert(s[i].certificate_id != s[j].certificate_id);
            } else if i < s.len() {
                assert(s[i].certificate_id == t[i].certificate_id);
            } else {
                assert(s[j].certificate_id == t[j].certificate_id);
            }
        }
    }
    lemma_model_at(t, s.len() as int);
    assert forall|id: Seq<char>| #[trigger] has_id(t, id) == (has_id(s, id) || id == v.certificate_id) by {
        if has_id(s, id) {
            let j = choose|j: int| 0 <= j < s.len() && #[trigger] s[j].certificate_id == id;
            assert(t[j].certificate_id == id);
        }
        if has_id(t, id) {
            let j = choose|j: int| 0 <= j < t.len() && #[trigger] t[j].certificate_id == id;
            if j < s.len() {
                assert(s[j].certificate_id == id);
            }
        }
    }
    assert forall|id: Seq<char>| #[trigger] model_of(t).contains_key(id) && id != v.certificate_id
        implies model_of(t)[id] == model_of(s)[id] by {
        let j = choose|j: int| 0 <= j < t.len() && #[trigger] t[j].certificate_id == id;
        assert(j < s.len());
        lemma_model_at(t, j);
        lemma_model_at(s, j);
    }
}

/// Removing the record at `k` removes its id from the model.
proof fn lemma_model_remove(s: Seq<RecordView>, k: int)
    requires
        unique_ids(s),
        0 <= k < s.len(),
    ensures
        unique_ids(s.remove(k)),
        model_of(s.remove(k)) =~= model_of(s).remove(s[k].certificate_id),
{
    let t = s.remove(k);
    let id0 = s[k].certificate_id;
    assert(unique_ids(t)) by {
        assert forall|i: int, j: int|
            0 <= i < t.len() && 0 <= j < t.len() && i != j implies #[trigger] t[i].certificate_id
                != #[trigger] t[j].certificate_id by {
            let si = if i < k { i } else { i + 1 };
            let sj = if j < k { j } else { j + 1 };
            assert(t[i] == s[si]);
            assert(t[j] == s[sj]);
            assert(s[si].certificate_id != s[sj].certificate_id);
        }
    }
    assert forall|id: Seq<char>| #[trigger] has_id(t, id) == (has_id(s, id) && id != id0) by {
        if has_id(s, id) && id != id0 {
            let j = choose|j: int| 0 <= j < s.len() && #[trigger] s[j].certificate_id == id;
            assert(j != k);
            let tj = if j < k { j } else { j - 1 };
            assert(t[tj] == s[j]);
        }
        if has_id(t, id) {
            let j = choose|j: int| 0 <= j < t.len() && #[trigger] t[j].certificate_id == id;
            let sj = if j < k { j } else { j + 1 };
            assert(t[j] == s[sj]);
            assert(sj != k);
            assert(s[sj].certificate_id != id0);
        }
    }
    assert forall|id: Seq<char>| #[trigger] model_of(t).contains_key(id) implies model_of(t)[id]
        == model_of(s)[id] by {
        let j = choose|j: int| 0 <= j < t.len() && #[trigger] t[j].certificate_id == id;
        let sj = if j < k { j } else { j + 1 };
        assert(t[j] == s[sj]);
        lemma_model_at(t, j);
        lemma_model_at(s, sj);
    }
}

/// An in-memory store of certificate records with an event log. It keeps
/// one record per id and every record it holds is well formed.
pub struct CertStore {
    records: Vec<CertificateRecord>,
    events: Vec<String>,
}

impl CertStore {
    /// The records in storage order.
    pub closed spec fn records_view(&self) -> Seq<RecordView> {
        self.records@.map_values(|r: CertificateRecord| r@)
    }

    /// The published event payloads, oldest first.
    pub closed spec fn events_view(&self) -> Seq<Seq<char>> {
        texts(self.events@)
    }

    /// The store as a map from id to record.
    pub open spec fn model(&self) -> Map<Seq<char>, RecordView> {
        model_of(self.records_view())
    }

    /// Ids are unique and every record is issued no later than it expires.
    pub open spec fn wf(&self) -> bool {
        &&& unique_ids(self.records_view())
        &&& forall|i: int|
            0 <= i < self.records_view().len() ==> (#[trigger] self.records_view()[i]).well_formed()
    }

    /// An empty store with no events.
    pub fn new() -> (r: CertStore)
        ensures
            r.wf(),
            r.model() =~= Map::empty(),
            r.records_view() == Seq::<RecordView>::empty(),
            r.events_view() == Seq::<Seq<char>>::empty(),
    {
        let r = CertStore { records: Vec::new(), events: Vec::new() };
        proof {
            assert(r.records_view() =~= Seq::<RecordView>::empty());
            assert(r.events_view() =~= Seq::<Seq<char>>::empty());
        }
        r
    }

    /// Position of the record with `id`, if any.
    fn find(&self, id: &str) -> (r: Option<usize>)
        ensures
            r matches Some(k) ==> k < self.records@.len() && self.records_view()[k as int].certificate_id
                == id@,
            r is None ==> !has_id(self.records_view(), id@),
    {
        let mut i: usize = 0;
        while i < self.records.len()
            invariant
                i <= self.records@.len(),
                forall|j: int| 0 <= j < i ==> (#[trigger] self.records_view()[j]).certificate_id != id@,
            decreases self.records.len() - i,
        {
            if str_eq(self.records[i].certificate_id.as_str(), id) {
                return Some(i);
            }
            i = i + 1;
        }
        None
    }

    /// The record stored under `id`, if any.
    pub fn get_certificate(&self, id: &str) -> (r: Option<CertificateRecord>)
        requires
            self.wf(),
        ensures
            r is Some <==> self.model().contains_key(id@),
            r matches Some(x) ==> x@ == self.model()[id@],
            r matches Some(x) ==> x@.well_formed(),
    {
        match self.find(id) {
            Some(k) => {
                proof {
                    lemma_model_at(self.records_view(), k as int);
                }
                Some(self.records[k].duplicate())
            },
            None => None,
        }
    }

    /// Stores `record` under its id, replacing any record with that id.
    pub fn store_certificate(&mut self, record: CertificateRecord)
        requires
            old(self).wf(),
            record@.well_formed(),
        ensures
            final(self).wf(),
            final(self).model() == old(self).model().insert(record@.certificate_id, record@),
            final(self).events_view() == old(self).events_view(),
    {
        let ghost s = self.records_view();
        let ghost v = record@;
        match self.find(record.certificate_id.as_str()) {
            Some(k) => {
                self.records.set(k, record);
                proof {
                    assert(self.records_view() =~= s.update(k as int, v));
                    lemma_model_update(s, k as int, v);
                }
            },
            None => {
                self.records.push(record);
                proof {
                    assert(self.records_view() =~= s.push(v));
                    lemma_model_push(s, v);
                }
            },
        }
    }

    /// Sets the status of the record with `id`; an unknown id changes nothing.
    pub fn update_certificate_status(&mut self, id: &str, status: CertStatus)
        requires
            old(self).wf(),
        ensures
            final(self).wf(),
            final(self).model() == (if old(self).model().contains_key(id@) {
                old(self).model().insert(id@, old(self).model()[id@].with_status(status))
            } else {
                old(self).model()
            }),
            final(self).events_view() == old(self).events_view(),
    {
        let ghost s = self.records_view();
        match self.find(id) {
            Some(k) => {
                let mut rec = self.records[k].duplicate();
                rec.status = status;
                proof {
                    lemma_model_at(s, k as int);
                    assert(rec@ =~= s[k as int].with_status(status));
                }
                self.records.set(k, rec);
                proof {
                    assert(self.records_view() =~= s.update(k as int, rec@));
                    lemma_model_update(s, k as int, rec@);
                }
            },
            None => {},
        }
    }

    /// The records whose status matches `filter` (all of them for `None`),
    /// in storage order.
    pub fn list_certificates(&self, filter: Option<CertStatus>) -> (r: Vec<CertificateRecord>)
        ensures
            r@.map_values(|x: CertificateRecord| x@) == self.records_view().filter(
                |v: RecordView| matches_filter(v, filter),
            ),
    {
        let out = select_by_status(&self.records, filter);
        proof {
            assert(views(self.records@) =~= self.records_view());
            assert(views(out@) =~= out@.map_values(|x: CertificateRecord| x@));
        }
        out
    }

    /// Removes the record with `id`; an unknown id changes nothing.
    pub fn delete_certificate(&mut self, id: &str)
        requires
            old(self).wf(),
        ensures
            final(self).wf(),
            final(self).model() == old(self).model().remove(id@),
            final(self).events_view() == old(self).events_view(),
    {
        let ghost s = self.records_view();
        match self.find(id) {
            Some(k) => {
                self.records.remove(k);
                proof {
                    assert(self.records_view() =~= s.remove(k as int));
                    lemma_model_remove(s, k as int);
                }
            },
            None => {
                proof {
                    assert(model_of(s) =~= model_of(s).remove(id@));
                }
            },
        }
    }

    /// Appends `<event>:<data>` to the event log.
    pub fn publish_event(&mut self, event: &str, data: &str)
        ensures
            final(self).records_view() == old(self).records_view(),
            final(self).events_view() == old(self).events_view().push(event_text(event@, data@)),
    {
        let payload = event_payload(event, data);
        self.events.push(payload);
        proof {
            assert(self.events_view() =~= old(self).events_view().push(event_text(event@, data@)));
        }
    }

    /// The event log, oldest first.
    pub fn events(&self) -> (r: &Vec<String>)
        ensures
            texts(r@) == self.events_view(),
    {
        &self.events
    }
}

} // verus!
