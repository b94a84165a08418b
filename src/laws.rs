use vstd::prelude::*;

use crate::manager::revoked_model;
use crate::query::filtered;
use crate::record::{matches_filter, RecordView};
use crate::status::{is_retired, transition_allowed, CertStatus};
use crate::store::{has_id, lemma_model_at, model_of, unique_ids, CertStore};

verus! {

/// Listing without a filter yields every record.
pub proof fn lemma_unfiltered_is_all(s: Seq<RecordView>)
    ensures
        filtered(s, None) == s,
    decreases s.len(),
{
    reveal(Seq::filter);
    if s.len() > 0 {
        lemma_unfiltered_is_all(s.drop_last());
        assert(s.drop_last().push(s.last()) =~= s);
    }
}

/// Once a record with `id` is in a well-formed store, the unfiltered listing
/// holds exactly one record with that id, and it is the stored one.
pub proof fn lemma_listed_exactly_once(store: CertStore, id: Seq<char>)
    requires
        store.wf(),
        store.model().contains_key(id),
    ensures
        ({
            let l = filtered(store.records_view(), None);
            exists|i: int|
                0 <= i < l.len() && #[trigger] l[i].certificate_id == id && l[i] == store.model()[id]
                    && forall|j: int| 0 <= j < l.len() && #[trigger] l[j].certificate_id == id ==> j == i
        }),
{
    let s = store.records_view();
    lemma_unfiltered_is_all(s);
    assert(has_id(s, id));
    let i = choose|i: int| 0 <= i < s.len() && #[trigger] s[i].certificate_id == id;
    lemma_model_at(s, i);
    assert(forall|j: int| 0 <= j < s.len() && #[trigger] s[j].certificate_id == id ==> j == i);
}

/// After a revocation of a known id, its status reads revoked.
pub proof fn lemma_revoke_then_status(m: Map<Seq<char>, RecordView>, id: Seq<char>)
    requires
        m.contains_key(id),
    ensures
        revoked_model(m, id).contains_key(id),
        revoked_model(m, id)[id].status == CertStatus::Revoked,
{
}

/// Revoking twice leaves the records as revoking once does.
pub proof fn lemma_revoke_idempotent(m: Map<Seq<char>, RecordView>, id: Seq<char>)
    ensures
        revoked_model(revoked_model(m, id), id) == revoked_model(m, id),
{
    if m.contains_key(id) {
        let once = revoked_model(m, id);
        assert(once[id].with_status(CertStatus::Revoked) == once[id]);
        assert(once.insert(id, once[id]) =~= once);
    }
}

/// Revoking an id that is not stored changes no record.
pub proof fn lemma_revoke_unknown(m: Map<Seq<char>, RecordView>, id: Seq<char>)
    requires
        !m.contains_key(id),
    ensures
        revoked_model(m, id) == m,
{
}

/// Revocation keeps every record, brings none back to active, and leaves
/// retired records retired.
pub proof fn lemma_revoke_keeps_lifecycle(m: Map<Seq<char>, RecordView>, id: Seq<char>)
    ensures
        forall|k: Seq<char>|
            #[trigger] m.contains_key(k) ==> {
                let after = revoked_model(m, id);
                &&& after.contains_key(k)
                &&& is_retired(m[k].status) ==> is_retired(after[k].status)
                &&& after[k].status == CertStatus::Active ==> m[k].status == CertStatus::Active
            },
{
}

/// Issuing under a fresh id, and renewing (issuing under a fresh id, then
/// revoking the old one), bring no record back to active: every stored record
/// keeps its status or moves along an allowed transition.
pub proof fn lemma_issue_and_renew_keep_lifecycle(
    m: Map<Seq<char>, RecordView>,
    new_id: Seq<char>,
    rec: RecordView,
    old_id: Seq<char>,
)
    requires
        !m.contains_key(new_id),
        m.contains_key(old_id),
        m[old_id].status == CertStatus::Active,
    ensures
        forall|k: Seq<char>|
            #[trigger] m.contains_key(k) ==> m.insert(new_id, rec)[k] == m[k],
        forall|k: Seq<char>|
            #[trigger] m.contains_key(k) ==> transition_allowed(
                m[k].status,
                m.insert(new_id, rec).insert(old_id, m[old_id].with_status(CertStatus::Revoked))[k].status,
            ),
        forall|k: Seq<char>|
            #[trigger] m.contains_key(k) && is_retired(m[k].status) ==> is_retired(
                m.insert(new_id, rec).insert(old_id, m[old_id].with_status(CertStatus::Revoked))[k].status,
            ),
{
}

/// A renewal request names no subject component beyond the common name, so
/// the renewed certificate's subject is the common name alone.
pub proof fn lemma_renewal_subject_is_cn_only(req: crate::record::CertificateRequest)
    requires
        req.organization is None,
        req.organizational_unit is None,
        req.country is None,
        req.state is None,
        req.locality is None,
    ensures
        crate::profile::subject_of(req) =~= seq![("CN"@, req.common_name@)],
{
}

/// Revoking an active record moves it from the active records to the revoked
/// ones and changes no other record's status.
pub proof fn lemma_revoke_moves_record(m: Map<Seq<char>, RecordView>, id: Seq<char>)
    requires
        m.contains_key(id),
        m[id].status == CertStatus::Active,
    ensures
        forall|k: Seq<char>|
            #[trigger] revoked_model(m, id).contains_key(k) <==> m.contains_key(k),
        forall|k: Seq<char>|
            m.contains_key(k) ==> ((#[trigger] revoked_model(m, id)[k]).status == CertStatus::Active
                <==> m[k].status == CertStatus::Active && k != id),
        forall|k: Seq<char>|
            m.contains_key(k) ==> ((#[trigger] revoked_model(m, id)[k]).status == CertStatus::Revoked
                <==> m[k].status == CertStatus::Revoked || k == id),
{
}

/// A listing by status holds, for each stored id whose record has that
/// status, exactly that record, and nothing else.
pub proof fn lemma_listing_matches_model(store: CertStore, st: CertStatus)
    requires
        store.wf(),
    ensures
        ({
            let l = filtered(store.records_view(), Some(st));
            &&& forall|i: int|
                0 <= i < l.len() ==> store.model().contains_key((#[trigger] l[i]).certificate_id)
                    && store.model()[l[i].certificate_id] == l[i] && l[i].status == st
            &&& forall|k: Seq<char>|
                #[trigger] store.model().contains_key(k) && store.model()[k].status == st ==> exists|i: int|
                    0 <= i < l.len() && l[i] == store.model()[k]
            &&& unique_ids(l)
        }),
{
    let s = store.records_view();
    let p = |v: RecordView| matches_filter(v, Some(st));
    let l = s.filter(p);
    crate::watcher::lemma_filter_unique(s, p);
    assert forall|i: int| 0 <= i < l.len() implies store.model().contains_key((#[trigger] l[i]).certificate_id)
        && store.model()[l[i].certificate_id] == l[i] && l[i].status == st by {
        assert(l.contains(l[i]));
        s.lemma_filter_contains_rev(p, l[i]);
        s.lemma_filter_pred(p, i);
        let idx = choose|idx: int| 0 <= idx < s.len() && s[idx] == l[i];
        lemma_model_at(s, idx);
    }
    assert forall|k: Seq<char>| #[trigger] store.model().contains_key(k) && store.model()[k].status == st
        implies exists|i: int| 0 <= i < l.len() && l[i] == store.model()[k] by {
        crate::store::lemma_model_has(s, k);
        let idx = choose|idx: int| 0 <= idx < s.len() && s[idx] == store.model()[k];
        s.lemma_filter_contains(p, idx);
        assert(l.contains(s[idx]));
    }
}

} // verus!
