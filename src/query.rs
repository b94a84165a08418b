use vstd::prelude::*;

use crate::record::{expiring_at, is_expiring, matches_filter, CertificateRecord, RecordView};

verus! {

/// The values of a sequence of records.
pub open spec fn views(v: Seq<CertificateRecord>) -> Seq<RecordView> {
    v.map_values(|x: CertificateRecord| x@)
}

/// The records of `s` that match a status filter.
pub open spec fn filtered(s: Seq<RecordView>, filter: Option<crate::status::CertStatus>) -> Seq<RecordView> {
    s.filter(|v: RecordView| matches_filter(v, filter))
}

/// The records of `s` due for renewal at `now`.
pub open spec fn expiring(s: Seq<RecordView>, now: int, threshold_days: u32) -> Seq<RecordView> {
    s.filter(|v: RecordView| expiring_at(v, now, threshold_days))
}

/// Keeps the records whose status matches `filter`, in order.
pub fn select_by_status(
    records: &Vec<CertificateRecord>,
    filter: Option<crate::status::CertStatus>,
) -> (r: Vec<CertificateRecord>)
    ensures
        views(r@) == filtered(views(records@), filter),
{
    let ghost s = views(records@);
    let mut out: Vec<CertificateRecord> = Vec::new();
    let mut i: usize = 0;
    let n = records.len();
    while i < n
        invariant
            i <= n,
            n == s.len(),
            n == records@.len(),
            s == views(records@),
            views(out@) == s.subrange(0, i as int).filter(|v: RecordView| matches_filter(v, filter)),
        decreases n - i,
    {
        let ghost before = views(out@);
        let rec = records[i].duplicate();
        proof {
            assert(rec@ == s[i as int]);
            reveal(Seq::filter);
            assert(s.subrange(0, i + 1 as int).drop_last() =~= s.subrange(0, i as int));
            assert(s.subrange(0, i + 1 as int).last() == s[i as int]);
        }
        let keep = match filter {
            Some(st) => rec.status == st,
            None => true,
        };
        if keep {
            out.push(rec);
            proof {
                assert(views(out@) =~= before.push(s[i as int]));
            }
        }
        i = i + 1;
    }
    proof {
        assert(s.subrange(0, n as int) =~= s);
    }
    out
}

/// Keeps the records due for renewal at `now`: active, and expiring within
/// `(0, threshold_days·86400]` seconds. Order is kept.
pub fn select_expiring(records: &Vec<CertificateRecord>, now: i64, threshold_days: u32) -> (r: Vec<
    CertificateRecord,
>)
    ensures
        views(r@) == expiring(views(records@), now as int, threshold_days),
{
    let ghost s = views(records@);
    let mut out: Vec<CertificateRecord> = Vec::new();
    let mut i: usize = 0;
    let n = records.len();
    while i < n
        invariant
            i <= n,
            n == s.len(),
            n == records@.len(),
            s == views(records@),
            views(out@) == s.subrange(0, i as int).filter(
                |v: RecordView| expiring_at(v, now as int, threshold_days),
            ),
        decreases n - i,
    {
        let ghost before = views(out@);
        let rec = records[i].duplicate();
        proof {
            assert(rec@ == s[i as int]);
            reveal(Seq::filter);
            assert(s.subrange(0, i + 1 as int).drop_last() =~= s.subrange(0, i as int));
            assert(s.subrange(0, i + 1 as int).last() == s[i as int]);
        }
        if is_expiring(&rec, now, threshold_days) {
            out.push(rec);
            proof {
                assert(views(out@) =~= before.push(s[i as int]));
            }
        }
        i = i + 1;
    }
    proof {
        assert(s.subrange(0, n as int) =~= s);
    }
    out
}

/// Filtering by `p` then by a stronger `q` is filtering by `q`.
pub proof fn lemma_filter_narrowing(s: Seq<RecordView>, p: spec_fn(RecordView) -> bool, q: spec_fn(RecordView) -> bool)
    requires
        forall|v: RecordView| #[trigger] q(v) ==> p(v),
    ensures
        s.filter(p).filter(q) == s.filter(q),
    decreases s.len(),
{
    reveal(Seq::filter);
    if s.len() > 0 {
        lemma_filter_narrowing(s.drop_last(), p, q);
        let sp = s.drop_last().filter(p);
        if p(s.last()) {
            assert(sp.push(s.last()).drop_last() =~= sp);
        }
    }
}

/// A record due for renewal is among the records that the expiring query
/// returns.
pub proof fn lemma_expiring_includes(s: Seq<RecordView>, k: int, now: int, threshold_days: u32)
    requires
        0 <= k < s.len(),
        s[k].status == crate::status::CertStatus::Active,
        0 < s[k].expires_at - now,
        s[k].expires_at - now <= threshold_days as int * 86400,
    ensures
        expiring(s, now, threshold_days).contains(s[k]),
{
    s.lemma_filter_contains_rev(|v: RecordView| expiring_at(v, now, threshold_days), s[k]);
}

} // verus!
