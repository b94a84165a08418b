use vstd::prelude::*;
use vstd::string::StringExecFns;

use crate::config::WatcherConfig;
use crate::decimal::{decimal_text, to_decimal};
use crate::error::{error_detail, error_label, CertAgentError};
use crate::manager::{renewal_days, CertificateManager};
use crate::query::{expiring, filtered, views};
use crate::record::{event_text, renewed_record_view, CertificateRecord, RecordView, SECONDS_PER_DAY};
use crate::sources::unix_now;
use crate::status::CertStatus;

verus! {

/// Outcome counts of one renewal batch.
pub struct RenewalSummary {
    pub renewed: usize,
    pub failed: usize,
    pub outcomes: Vec<RenewalOutcome>,
}

/// What became of one due record: the id of its replacement, or `None`
/// when its renewal failed.
pub struct RenewalOutcome {
    pub old_id: String,
    pub new_id: Option<String>,
    pub error: Option<CertAgentError>,
}

/// The events one outcome publishes, in order: for a renewal `issued:<new>`,
/// `revoked:<old>`, `renewed:<new>`, `auto_renewed:<new>`; for a failure
/// `renewal_failed:<old>:<message>`.
pub open spec fn step_events(o: RenewalOutcome) -> Seq<Seq<char>> {
    match o.new_id {
        Some(n) => seq![
            event_text("issued"@, n@),
            event_text("revoked"@, o.old_id@),
            event_text("renewed"@, n@),
            event_text("auto_renewed"@, n@),
        ],
        None => match o.error {
            Some(e) => seq![renewal_failed_text(o.old_id@, e)],
            None => Seq::empty(),
        },
    }
}

/// The events a batch publishes: each outcome's, in order.
pub open spec fn outcome_events(o: Seq<RenewalOutcome>) -> Seq<Seq<char>>
    decreases o.len(),
{
    if o.len() == 0 {
        Seq::empty()
    } else {
        outcome_events(o.drop_last()) + step_events(o.last())
    }
}

/// No two renewals got the same new id, and every failure has its error.
pub open spec fn outcomes_well_formed(o: Seq<RenewalOutcome>) -> bool {
    &&& forall|a: int, b: int|
        0 <= a < o.len() && 0 <= b < o.len() && a != b && (#[trigger] o[a]).new_id is Some && (
        #[trigger] o[b]).new_id is Some ==> o[a].new_id->Some_0@ != o[b].new_id->Some_0@
    &&& forall|a: int| 0 <= a < o.len() && (#[trigger] o[a]).new_id is None ==> o[a].error is Some
}

/// Payload of the event for a failed renewal of `id` with error `e`.
pub open spec fn renewal_failed_text(id: Seq<char>, e: CertAgentError) -> Seq<char> {
    event_text("renewal_failed"@, id + ":"@ + error_label(e) + error_detail(e))
}

/// Number of renewed outcomes.
pub open spec fn count_renewed(s: Seq<RenewalOutcome>) -> nat
    decreases s.len(),
{
    if s.len() == 0 {
        0
    } else {
        count_renewed(s.drop_last()) + if s.last().new_id is Some { 1nat } else { 0nat }
    }
}

/// What an outcome for the record `id` of `m` says of the records `f` and
/// events `ev` after the batch: renewed (the original revoked, a record
/// renewed from it under a fresh id, `auto_renewed:<new>` published) or
/// failed (the original unchanged, `renewal_failed:<id>:<message>` published).
pub open spec fn outcome_holds(
    m: Map<Seq<char>, RecordView>,
    f: Map<Seq<char>, RecordView>,
    ev: Seq<Seq<char>>,
    id: Seq<char>,
    o: RenewalOutcome,
    days: u32,
) -> bool {
    match o.new_id {
        Some(n) => {
            &&& !m.contains_key(n@)
            &&& f.contains_key(n@)
            &&& f.contains_key(id)
            &&& f[id] == m[id].with_status(CertStatus::Revoked)
            &&& exists|t: int| f[n@] == #[trigger] renewed_record_view(m[id], n@, days, t)
            &&& ev.contains(event_text("auto_renewed"@, n@))
        },
        None => {
            &&& f.contains_key(id)
            &&& f[id] == m[id]
            &&& exists|e: CertAgentError| ev.contains(#[trigger] renewal_failed_text(id, e))
        },
    }
}

/// Whether `key` is the id of one of the first `i` due records.
pub open spec fn among_first(d: Seq<RecordView>, i: int, key: Seq<char>) -> bool {
    exists|k: int| 0 <= k < i && #[trigger] d[k].certificate_id == key
}

/// Whether `o` renewed into a record with id `key`.
pub open spec fn renewed_into(o: RenewalOutcome, key: Seq<char>) -> bool {
    match o.new_id {
        Some(n) => n@ == key,
        None => false,
    }
}

/// Whether `key` is the new id of one of the outcomes.
pub open spec fn is_new_id(o: Seq<RenewalOutcome>, key: Seq<char>) -> bool {
    exists|k: int| 0 <= k < o.len() && renewed_into(#[trigger] o[k], key)
}

/// Record counts by status.
pub struct HealthCounts {
    pub active: usize,
    pub expired: usize,
    pub revoked: usize,
}

/// Number of records of `s` with status `st`.
pub open spec fn count_status(s: Seq<RecordView>, st: CertStatus) -> nat {
    filtered(s, Some(st)).len()
}

/// Payload of the health event: `active:<n>,expired:<n>,revoked:<n>`.
pub open spec fn health_text(a: nat, e: nat, r: nat) -> Seq<char> {
    "active:"@ + decimal_text(a) + ",expired:"@ + decimal_text(e) + ",revoked:"@ + decimal_text(r)
}

/// Whether a record is expired and expired before `cutoff`.
pub open spec fn stale(v: RecordView, cutoff: int) -> bool {
    v.status == CertStatus::Expired && v.expires_at < cutoff
}

/// Whether `f` is `m` with exactly the records stale at `cutoff` removed.
pub open spec fn cleaned(m: Map<Seq<char>, RecordView>, f: Map<Seq<char>, RecordView>, cutoff: int) -> bool {
    &&& forall|k: Seq<char>| #[trigger] f.contains_key(k) <==> m.contains_key(k) && !stale(m[k], cutoff)
    &&& forall|k: Seq<char>| #[trigger] f.contains_key(k) ==> f[k] == m[k]
}

/// Number of stored records that are stale at `cutoff`.
pub open spec fn stale_count(s: Seq<RecordView>, cutoff: int) -> nat {
    filtered(s, Some(CertStatus::Expired)).filter(|v: RecordView| stale(v, cutoff)).len()
}

/// The records due at `now` have unique ids, are stored as they are, and
/// are active.
pub proof fn lemma_due_records(s: Seq<RecordView>, now: int, threshold_days: u32)
    requires
        crate::store::unique_ids(s),
    ensures
        crate::store::unique_ids(expiring(s, now, threshold_days)),
        forall|k: int|
            0 <= k < expiring(s, now, threshold_days).len() ==> {
                let v = #[trigger] expiring(s, now, threshold_days)[k];
                &&& crate::store::model_of(s).contains_key(v.certificate_id)
                &&& crate::store::model_of(s)[v.certificate_id] == v
                &&& v.status == CertStatus::Active
            },
{
    let p = |v: RecordView| crate::record::expiring_at(v, now, threshold_days);
    let d = s.filter(p);
    lemma_filter_unique(s, p);
    assert forall|k: int| 0 <= k < d.len() implies {
        let v = #[trigger] d[k];
        &&& crate::store::model_of(s).contains_key(v.certificate_id)
        &&& crate::store::model_of(s)[v.certificate_id] == v
        &&& v.status == CertStatus::Active
    } by {
        assert(d.contains(d[k]));
        s.lemma_filter_contains_rev(p, d[k]);
        s.lemma_filter_pred(p, k);
        let idx = choose|idx: int| 0 <= idx < s.len() && s[idx] == d[k];
        crate::store::lemma_model_at(s, idx);
    }
}

/// Filtering keeps ids unique.
pub proof fn lemma_filter_unique(s: Seq<RecordView>, p: spec_fn(RecordView) -> bool)
    requires
        crate::store::unique_ids(s),
    ensures
        crate::store::unique_ids(s.filter(p)),
    decreases s.len(),
{
    reveal(Seq::filter);
    if s.len() > 0 {
        let t = s.drop_last();
        assert(crate::store::unique_ids(t)) by {
            assert forall|i: int, j: int|
                0 <= i < t.len() && 0 <= j < t.len() && i != j implies #[trigger] t[i].certificate_id
                    != #[trigger] t[j].certificate_id by {
                assert(t[i] == s[i] && t[j] == s[j]);
            }
        }
        lemma_filter_unique(t, p);
        let tf = t.filter(p);
        if p(s.last()) {
            let u = tf.push(s.last());
            assert forall|i: int, j: int|
                0 <= i < u.len() && 0 <= j < u.len() && i != j implies #[trigger] u[i].certificate_id
                    != #[trigger] u[j].certificate_id by {
                if i < tf.len() && j < tf.len() {
                    assert(u[i] == tf[i] && u[j] == tf[j]);
                } else {
                    let a = if i < tf.len() { i } else { j };
                    assert(tf.contains(tf[a]));
                    t.lemma_filter_contains_rev(p, tf[a]);
                    let idx = choose|idx: int| 0 <= idx < t.len() && t[idx] == tf[a];
                    assert(s[idx] == t[idx]);
                    assert(s[s.len() - 1] == s.last());
                    assert(s[idx].certificate_id != s[s.len() - 1].certificate_id);
                }
            }
        }
    }
}

/// What one renewal tick at `now` did, taking the watcher from `before` to
/// `after` with summary `r`: each due record got an outcome, in order, as
/// `outcome_holds` says; records that were not due are as they were; the only
/// records added are the replacements, with pairwise distinct ids; the events
/// are exactly the outcomes' events; the counts split the outcomes.
pub open spec fn tick_result(
    before: CertificateWatcher,
    after: CertificateWatcher,
    now: int,
    r: RenewalSummary,
) -> bool {
    let m = before.manager().store().model();
    let f = after.manager().store().model();
    let ev = after.manager().store().events_view();
    let d = expiring(
        before.manager().store().records_view(),
        now,
        before.manager().config().renewal_threshold_days,
    );
    let days = before.manager().config().default_validity_days;
    &&& r.outcomes@.len() == d.len()
    &&& forall|k: int|
        0 <= k < d.len() ==> (#[trigger] r.outcomes@[k]).old_id@ == d[k].certificate_id
            && outcome_holds(m, f, ev, d[k].certificate_id, r.outcomes@[k], days)
    &&& forall|key: Seq<char>|
        #[trigger] m.contains_key(key) && !among_first(d, d.len() as int, key) ==> f.contains_key(key)
            && f[key] == m[key]
    &&& forall|key: Seq<char>|
        #[trigger] f.contains_key(key) ==> m.contains_key(key) || is_new_id(r.outcomes@, key)
    &&& d.len() == 0 ==> f == m && ev == before.manager().store().events_view()
    &&& ev == before.manager().store().events_view() + outcome_events(r.outcomes@)
    &&& outcomes_well_formed(r.outcomes@)
    &&& r.renewed == count_renewed(r.outcomes@)
    &&& r.renewed + r.failed == d.len()
}

/// What a cleanup at `now` did, taking the watcher from `before` to `after`
/// and reporting `r` removals: exactly the records stale at the cutoff
/// `days_old` days before `now` went, `r` counts them, and
/// `cleanup:removed:<r>` was published when any went.
pub open spec fn cleanup_result(
    before: CertificateWatcher,
    after: CertificateWatcher,
    now: int,
    days_old: u32,
    r: nat,
) -> bool {
    let m = before.manager().store().model();
    let f = after.manager().store().model();
    let ev = before.manager().store().events_view();
    let cutoff = now - days_old as int * SECONDS_PER_DAY as int;
    &&& cleaned(m, f, cutoff)
    &&& r == stale_count(before.manager().store().records_view(), cutoff)
    &&& r == 0 ==> after.manager().store().events_view() == ev
    &&& r > 0 ==> after.manager().store().events_view() == ev.push(
        event_text("cleanup"@, "removed:"@ + decimal_text(r)),
    )
}

/// `cleanup_result` for a successful cleanup.
pub open spec fn cleanup_outcome(
    before: CertificateWatcher,
    after: CertificateWatcher,
    now: int,
    days_old: u32,
    r: Result<usize, CertAgentError>,
) -> bool {
    r matches Ok(n) && cleanup_result(before, after, now, days_old, n as nat)
}

/// Decides the event that reports one renewal: `auto_renewed` with the new
/// id, or `renewal_failed` with the old id and the error's message.
pub fn renewal_event(old_id: &str, outcome: &Result<String, CertAgentError>) -> (r: (String, String))
    ensures
        outcome matches Ok(n) ==> r.0@ == "auto_renewed"@ && r.1@ == n@,
        outcome matches Err(e) ==> event_text(r.0@, r.1@) == renewal_failed_text(old_id@, *e),
{
    match outcome {
        Ok(n) => (String::from_str("auto_renewed"), n.clone()),
        Err(e) => {
            let data = String::from_str(old_id).concat(":").concat(e.message().as_str());
            proof {
                assert(data@ =~= old_id@ + ":"@ + error_label(*e) + error_detail(*e));
            }
            (String::from_str("renewal_failed"), data)
        },
    }
}

/// Counts records by status.
pub fn count_statuses(records: &Vec<CertificateRecord>) -> (r: HealthCounts)
    ensures
        r.active == count_status(views(records@), CertStatus::Active),
        r.expired == count_status(views(records@), CertStatus::Expired),
        r.revoked == count_status(views(records@), CertStatus::Revoked),
{
    let ghost s = views(records@);
    let mut c = HealthCounts { active: 0, expired: 0, revoked: 0 };
    let mut i: usize = 0;
    while i < records.len()
        invariant
            i <= records@.len(),
            s == views(records@),
            c.active == count_status(s.subrange(0, i as int), CertStatus::Active),
            c.expired == count_status(s.subrange(0, i as int), CertStatus::Expired),
            c.revoked == count_status(s.subrange(0, i as int), CertStatus::Revoked),
            c.active <= i && c.expired <= i && c.revoked <= i,
        decreases records.len() - i,
    {
        proof {
            reveal(Seq::filter);
            assert(s.subrange(0, i + 1 as int).drop_last() =~= s.subrange(0, i as int));
            assert(s.subrange(0, i + 1 as int).last() == s[i as int]);
            assert(s[i as int].status == records@[i as int].status);
        }
        match records[i].status {
            CertStatus::Active => c.active = c.active + 1,
            CertStatus::Expired => c.expired = c.expired + 1,
            CertStatus::Revoked => c.revoked = c.revoked + 1,
            CertStatus::Pending => {},
        }
        i = i + 1;
    }
    proof {
        assert(s.subrange(0, records@.len() as int) =~= s);
    }
    c
}

/// Builds the health event payload.
pub fn health_payload(c: &HealthCounts) -> (r: String)
    ensures
        r@ == health_text(c.active as nat, c.expired as nat, c.revoked as nat),
{
    String::from_str("active:").concat(to_decimal(c.active as u64).as_str()).concat(",expired:").concat(
        to_decimal(c.expired as u64).as_str(),
    ).concat(",revoked:").concat(to_decimal(c.revoked as u64).as_str())
}

/// The background renewer: finds records nearing expiry and renews them.
pub struct CertificateWatcher {
    cert_manager: CertificateManager,
    config: WatcherConfig,
}

impl CertificateWatcher {
    /// The engine that the watcher drives.
    pub closed spec fn manager(&self) -> CertificateManager {
        self.cert_manager
    }

    /// The watcher's settings.
    pub closed spec fn settings(&self) -> WatcherConfig {
        self.config
    }

    /// A watcher over `cert_manager`.
    pub fn new(cert_manager: CertificateManager, config: WatcherConfig) -> (r: CertificateWatcher)
        requires
            cert_manager.wf(),
        ensures
            r.manager() == cert_manager,
            r.settings() == config,
    {
        CertificateWatcher { cert_manager, config }
    }

    /// The engine, for reading.
    pub fn manager_ref(&self) -> (r: &CertificateManager)
        ensures
            *r == self.manager(),
    {
        &self.cert_manager
    }

    /// Renews one record. On success publishes `auto_renewed:<new id>` and
    /// returns the new id; on failure publishes
    /// `renewal_failed:<old id>:<message>` and leaves every record as it was.
    pub fn renew_one(&mut self, old_id: &str) -> (r: Result<String, CertAgentError>)
        requires
            old(self).manager().wf(),
        ensures
            final(self).manager().wf(),
            final(self).manager().config() == old(self).manager().config(),
            final(self).settings() == old(self).settings(),
            ({
                let m = old(self).manager().store().model();
                let f = final(self).manager().store().model();
                let ev = old(self).manager().store().events_view();
                let days = old(self).manager().config().default_validity_days;
                &&& !m.contains_key(old_id@) ==> (r matches Err(CertAgentError::CertificateNotFound(s))
                    && s@ == old_id@)
                &&& m.contains_key(old_id@) && m[old_id@].status != CertStatus::Active ==> (r matches Err(
                    e,
                ) && e is Certificate)
                &&& r is Ok ==> m.contains_key(old_id@) && m[old_id@].status == CertStatus::Active
                &&& r matches Ok(new_id) ==> {
                    &&& !m.contains_key(new_id@)
                    &&& exists|t: int|
                        f == m.insert(
                            new_id@,
                            #[trigger] renewed_record_view(m[old_id@], new_id@, days, t),
                        ).insert(old_id@, m[old_id@].with_status(CertStatus::Revoked))
                    &&& final(self).manager().store().events_view() == ev.push(
                        event_text("issued"@, new_id@),
                    ).push(event_text("revoked"@, old_id@)).push(event_text("renewed"@, new_id@)).push(
                        event_text("auto_renewed"@, new_id@),
                    )
                }
                &&& r matches Err(e) ==> {
                    &&& f == m
                    &&& final(self).manager().store().events_view() == ev.push(
                        renewal_failed_text(old_id@, e),
                    )
                }
            }),
    {
        let ghost m = self.manager().store().model();
        let ghost days = self.manager().config().default_validity_days;
        match self.cert_manager.renew_certificate(old_id, None) {
            Ok(issued) => {
                let new_id = issued.certificate_id;
                proof {
                    let f = self.manager().store().model();
                    let t = choose|t: int|
                        f == m.insert(
                            new_id@,
                            #[trigger] renewed_record_view(m[old_id@], new_id@, renewal_days(None, days), t),
                        ).insert(old_id@, m[old_id@].with_status(CertStatus::Revoked));
                    assert(f == m.insert(
                        new_id@,
                        renewed_record_view(m[old_id@], new_id@, days, t),
                    ).insert(old_id@, m[old_id@].with_status(CertStatus::Revoked)));
                }
                self.cert_manager.publish_event("auto_renewed", new_id.as_str());
                Ok(new_id)
            },
            Err(e) => {
                let outcome: Result<String, CertAgentError> = Err(e);
                let (event, data) = renewal_event(old_id, &outcome);
                self.cert_manager.publish_event(event.as_str(), data.as_str());
                outcome
            },
        }
    }

    /// One tick at time `now`: renews every record due for renewal by the
    /// engine's threshold, one after another. Each due record gets an
    /// outcome, in order: renewed or failed, as `outcome_holds` says; the
    /// records that were not due stay as they were, the only records added
    /// are the replacements, and the counts split the outcomes.
    pub fn check_and_renew_at(&mut self, now: i64) -> (r: RenewalSummary)
        requires
            old(self).manager().wf(),
        ensures
            final(self).manager().wf(),
            final(self).manager().config() == old(self).manager().config(),
            tick_result(*old(self), *final(self), now as int, r),
    {
        let ghost m = self.manager().store().model();
        let ghost ev0 = self.manager().store().events_view();
        let ghost s = self.manager().store().records_view();
        let ghost days = self.manager().config().default_validity_days;
        let ghost cfg = self.manager().config();
        let due = self.cert_manager.expiring_within(now, self.cert_manager.renewal_threshold_days());
        let ghost d = views(due@);
        proof {
            lemma_due_records(s, now as int, cfg.renewal_threshold_days);
        }
        let mut outcomes: Vec<RenewalOutcome> = Vec::new();
        let mut renewed: usize = 0;
        let mut failed: usize = 0;
        let mut i: usize = 0;
        while i < due.len()
            invariant
                self.manager().wf(),
                self.manager().config() == cfg,
                days == cfg.default_validity_days,
                d == views(due@),
                d == expiring(s, now as int, cfg.renewal_threshold_days),
                crate::store::unique_ids(d),
                forall|k: int| 0 <= k < d.len() ==> m.contains_key(#[trigger] d[k].certificate_id)
                    && m[d[k].certificate_id] == d[k] && d[k].status == CertStatus::Active,
                i <= due@.len(),
                outcomes@.len() == i,
                forall|k: int| 0 <= k < i ==> (#[trigger] outcomes@[k]).old_id@ == d[k].certificate_id
                    && outcome_holds(
                        m,
                        self.manager().store().model(),
                        self.manager().store().events_view(),
                        d[k].certificate_id,
                        outcomes@[k],
                        days,
                    ),
                forall|key: Seq<char>|
                    #[trigger] m.contains_key(key) && !among_first(d, i as int, key) ==> self.manager().store().model().contains_key(key)
                        && self.manager().store().model()[key] == m[key],
                forall|key: Seq<char>|
                    #[trigger] self.manager().store().model().contains_key(key) ==> m.contains_key(key)
                        || is_new_id(outcomes@, key),
                i == 0 ==> self.manager().store().model() == m && self.manager().store().events_view() == ev0,
                self.manager().store().events_view() == ev0 + outcome_events(outcomes@),
                outcomes_well_formed(outcomes@),
                renewed == count_renewed(outcomes@),
                renewed + failed == i,
            decreases due.len() - i,
        {
            let ghost f0 = self.manager().store().model();
            let ghost e0 = self.manager().store().events_view();
            let ghost oid = d[i as int].certificate_id;
            proof {
                assert(!among_first(d, i as int, oid)) by {
                    if among_first(d, i as int, oid) {
                        let k = choose|k: int| 0 <= k < i && #[trigger] d[k].certificate_id == oid;
                        assert(d[k].certificate_id == d[i as int].certificate_id);
                    }
                }
                assert(m.contains_key(oid));
                assert(f0.contains_key(oid) && f0[oid] == m[oid]);
            }
            let old_id = due[i].certificate_id.clone();
            let result = self.renew_one(old_id.as_str());
            let ghost f1 = self.manager().store().model();
            let ghost e1 = self.manager().store().events_view();
            let outcome = match result {
                Ok(new_id) => RenewalOutcome { old_id, new_id: Some(new_id), error: None },
                Err(e) => RenewalOutcome { old_id, new_id: None, error: Some(e) },
            };
            proof {
                assert(e0.len() <= e1.len());
                assert forall|x: Seq<char>| e0.contains(x) implies e1.contains(x) by {
                    let j = choose|j: int| 0 <= j < e0.len() && e0[j] == x;
                    assert(e1[j] == x);
                }
                if result is Ok {
                    let n = result->Ok_0;
                    assert(!f0.contains_key(n@));
                    let t = choose|t: int|
                        f1 == f0.insert(n@, #[trigger] renewed_record_view(f0[oid], n@, days, t)).insert(
                            oid,
                            f0[oid].with_status(CertStatus::Revoked),
                        );
                    assert(f1[n@] == renewed_record_view(m[oid], n@, days, t));
                    assert(e1[e1.len() - 1] == event_text("auto_renewed"@, n@));
                    assert(e1.contains(event_text("auto_renewed"@, n@)));
                    assert(!m.contains_key(n@)) by {
                        if m.contains_key(n@) && among_first(d, i as int, n@) {
                            let k = choose|k: int| 0 <= k < i && #[trigger] d[k].certificate_id == n@;
                            assert(outcome_holds(m, f0, e0, d[k].certificate_id, outcomes@[k], days));
                        }
                    }
                    assert(f1.contains_key(oid));
                    assert(f1[oid] == m[oid].with_status(CertStatus::Revoked));
                    assert(outcome_holds(m, f1, e1, oid, outcome, days));
                    assert forall|k: int| 0 <= k < i implies outcome_holds(
                        m,
                        f1,
                        e1,
                        d[k].certificate_id,
                        #[trigger] outcomes@[k],
                        days,
                    ) by {
                        let idk = d[k].certificate_id;
                        assert(idk != oid);
                        assert(outcome_holds(m, f0, e0, idk, outcomes@[k], days));
                        assert(f0.contains_key(idk));
                        if let Some(nk) = outcomes@[k].new_id {
                            assert(f0.contains_key(nk@));
                            assert(nk@ != oid);
                            let tk = choose|tk: int| f0[nk@] == #[trigger] renewed_record_view(m[idk], nk@, days, tk);
                            assert(f1[nk@] == renewed_record_view(m[idk], nk@, days, tk));
                            assert(e0.contains(event_text("auto_renewed"@, nk@)));
                        } else {
                            let ek = choose|ek: CertAgentError| e0.contains(#[trigger] renewal_failed_text(idk, ek));
                            assert(e1.contains(renewal_failed_text(idk, ek)));
                        }
                    }
                } else {
                    let er = result->Err_0;
                    assert(e1[e1.len() - 1] == renewal_failed_text(oid, er));
                    assert(e1.contains(renewal_failed_text(oid, er)));
                    assert(outcome_holds(m, f1, e1, oid, outcome, days));
                    assert forall|k: int| 0 <= k < i implies outcome_holds(
                        m,
                        f1,
                        e1,
                        d[k].certificate_id,
                        #[trigger] outcomes@[k],
                        days,
                    ) by {
                        let idk = d[k].certificate_id;
                        assert(outcome_holds(m, f0, e0, idk, outcomes@[k], days));
                        if let Some(nk) = outcomes@[k].new_id {
                            assert(e0.contains(event_text("auto_renewed"@, nk@)));
                        } else {
                            let ek = choose|ek: CertAgentError| e0.contains(#[trigger] renewal_failed_text(idk, ek));
                            assert(e1.contains(renewal_failed_text(idk, ek)));
                        }
                    }
                }
            }
            let is_renewed = outcome.new_id.is_some();
            let ghost before = outcomes@;
            outcomes.push(outcome);
            proof {
                assert(outcomes@.drop_last() =~= before);
                assert(outcomes@.last() == outcome);
                assert(self.manager().store().events_view() =~= ev0 + outcome_events(outcomes@));
                assert forall|a: int, b: int|
                    0 <= a < outcomes@.len() && 0 <= b < outcomes@.len() && a != b && (#[trigger] outcomes@[a]).new_id is Some
                        && (#[trigger] outcomes@[b]).new_id is Some implies outcomes@[a].new_id->Some_0@ != outcomes@[b].new_id->Some_0@ by {
                    if a < i && b < i {
                        assert(outcomes@[a] == before[a] && outcomes@[b] == before[b]);
                    } else {
                        let c = if a < i { a } else { b };
                        assert(outcomes@[c] == before[c]);
                        assert(outcome_holds(m, f0, e0, d[c].certificate_id, before[c], days));
                    }
                }
                assert forall|a: int| 0 <= a < outcomes@.len() && (#[trigger] outcomes@[a]).new_id is None
                    implies outcomes@[a].error is Some by {
                    if a < i {
                        assert(outcomes@[a] == before[a]);
                    }
                }
                assert forall|key: Seq<char>| #[trigger] m.contains_key(key) && !among_first(d, i + 1 as int, key)
                    implies self.manager().store().model().contains_key(key) && self.manager().store().model()[key] == m[key] by {
                    assert(!among_first(d, i as int, key));
                    assert(key != oid);
                }
                assert forall|key: Seq<char>| #[trigger] self.manager().store().model().contains_key(key)
                    implies m.contains_key(key) || is_new_id(outcomes@, key) by {
                    if f0.contains_key(key) {
                        if is_new_id(before, key) {
                            let k = choose|k: int| 0 <= k < before.len() && renewed_into(#[trigger] before[k], key);
                            assert(outcomes@[k] == before[k]);
                        }
                    } else {
                        assert(outcomes@[i as int] == outcome);
                    }
                }
                assert forall|k: int| 0 <= k < i + 1 implies (#[trigger] outcomes@[k]).old_id@ == d[k].certificate_id
                    && outcome_holds(m, self.manager().store().model(), self.manager().store().events_view(), d[k].certificate_id, outcomes@[k], days) by {
                    if k < i {
                        assert(outcomes@[k] == before[k]);
                    }
                }
            }
            if is_renewed {
                renewed = renewed + 1;
            } else {
                failed = failed + 1;
            }
            i = i + 1;
        }
        RenewalSummary { renewed, failed, outcomes }
    }

    /// One tick at the current time; see `check_and_renew_at`.
    pub fn check_and_renew_certificates(&mut self) -> (r: RenewalSummary)
        requires
            old(self).manager().wf(),
        ensures
            final(self).manager().wf(),
            exists|now: int| now >= 0 && #[trigger] tick_result(*old(self), *final(self), now, r),
    {
        let now = unix_now();
        let r = self.check_and_renew_at(now);
        proof {
            assert(tick_result(*old(self), *self, now as int, r));
        }
        r
    }

    /// Removes every record that is expired and expired more than `days_old`
    /// days before `now`, keeping all others, and returns how many went. When
    /// any went, publishes `cleanup:removed:<n>`.
    pub fn cleanup_expired_at(&mut self, now: i64, days_old: u32) -> (r: usize)
        requires
            old(self).manager().wf(),
        ensures
            final(self).manager().wf(),
            cleanup_result(*old(self), *final(self), now as int, days_old, r as nat),
    {
        let ghost m = self.manager().store().model();
        let ghost ev = self.manager().store().events_view();
        let ghost s = self.manager().store().records_view();
        let ghost cutoff = now as int - days_old as int * SECONDS_PER_DAY as int;
        let cutoff_exec: i128 = now as i128 - days_old as i128 * 86400;
        let expired = self.cert_manager.store_ref().list_certificates(Some(CertStatus::Expired));
        let ghost l = views(expired@);
        proof {
            let p = |v: RecordView| crate::record::matches_filter(v, Some(CertStatus::Expired));
            assert forall|j: int| 0 <= j < l.len() implies m.contains_key(#[trigger] l[j].certificate_id)
                && m[l[j].certificate_id] == l[j] by {
                assert(s.filter(p).contains(l[j]));
                s.lemma_filter_contains_rev(p, l[j]);
                let idx = choose|idx: int| 0 <= idx < s.len() && s[idx] == l[j];
                crate::store::lemma_model_at(s, idx);
            }
        }
        let mut removed: usize = 0;
        let mut i: usize = 0;
        while i < expired.len()
            invariant
                self.manager().wf(),
                i <= expired@.len(),
                l == views(expired@),
                l == filtered(s, Some(CertStatus::Expired)),
                cutoff_exec == cutoff,
                removed <= i,
                removed == l.subrange(0, i as int).filter(|v: RecordView| stale(v, cutoff)).len(),
                self.manager().store().events_view() == ev,
                forall|k: Seq<char>| #[trigger]
                    self.manager().store().model().contains_key(k) ==> m.contains_key(k)
                        && self.manager().store().model()[k] == m[k],
                forall|k: Seq<char>| #[trigger]
                    m.contains_key(k) && !stale(m[k], cutoff) ==> self.manager().store().model().contains_key(k),
                forall|j: int| 0 <= j < i && #[trigger] stale(l[j], cutoff) ==> !self.manager().store().model().contains_key(l[j].certificate_id),
                forall|j: int| 0 <= j < l.len() ==> m.contains_key(#[trigger] l[j].certificate_id) && m[l[j].certificate_id] == l[j],
            decreases expired.len() - i,
        {
            let rec = &expired[i];
            proof {
                reveal(Seq::filter);
                assert(l.subrange(0, i + 1 as int).drop_last() =~= l.subrange(0, i as int));
                assert(l.subrange(0, i + 1 as int).last() == l[i as int]);
                assert(rec@ == l[i as int]);
            }
            if (rec.expires_at as i128) < cutoff_exec {
                proof {
                    assert(stale(l[i as int], cutoff));
                    assert(m[l[i as int].certificate_id] == l[i as int]);
                    assert(rec.certificate_id@ == l[i as int].certificate_id);
                }
                self.cert_manager.delete_certificate(rec.certificate_id.as_str());
                removed = removed + 1;
            } else {
                proof {
                    assert(!stale(l[i as int], cutoff));
                }
            }
            i = i + 1;
        }
        proof {
            let f = self.manager().store().model();
            assert forall|k: Seq<char>| #[trigger] m.contains_key(k) && stale(m[k], cutoff) implies !f.contains_key(k) by {
                crate::store::lemma_model_has(s, k);
                let idx = choose|idx: int| 0 <= idx < s.len() && s[idx] == m[k];
                s.lemma_filter_contains(|v: RecordView| crate::record::matches_filter(v, Some(CertStatus::Expired)), idx);
                assert(l.contains(s[idx]));
                let j = choose|j: int| 0 <= j < l.len() && l[j] == s[idx];
                assert(stale(l[j], cutoff));
            }
            assert(l.subrange(0, l.len() as int) =~= l);
            assert(removed == stale_count(s, cutoff));
        }
        if removed > 0 {
            let count = to_decimal(removed as u64);
            let data = String::from_str("removed:").concat(count.as_str());
            self.cert_manager.publish_event("cleanup", data.as_str());
        }
        removed
    }

    /// Removes records that expired more than `days_old` days before the
    /// current time; see `cleanup_expired_at`.
    pub fn cleanup_expired_certificates(&mut self, days_old: u32) -> (r: Result<usize, CertAgentError>)
        requires
            old(self).manager().wf(),
        ensures
            final(self).manager().wf(),
            r is Ok,
            exists|now: int|
                now >= 0 && #[trigger] cleanup_outcome(*old(self), *final(self), now, days_old, r),
    {
        let now = unix_now();
        let n = self.cleanup_expired_at(now, days_old);
        proof {
            assert(cleanup_outcome(*old(self), *self, now as int, days_old, Ok(n)));
        }
        Ok(n)
    }

    /// Counts all records by status and publishes
    /// `health_check:active:<n>,expired:<n>,revoked:<n>`.
    pub fn check_certificate_health(&mut self) -> (r: Result<HealthCounts, CertAgentError>)
        requires
            old(self).manager().wf(),
        ensures
            final(self).manager().wf(),
            final(self).manager().store().model() == old(self).manager().store().model(),
            r matches Ok(c) && {
                let s = old(self).manager().store().records_view();
                &&& c.active == count_status(s, CertStatus::Active)
                &&& c.expired == count_status(s, CertStatus::Expired)
                &&& c.revoked == count_status(s, CertStatus::Revoked)
                &&& final(self).manager().store().events_view() == old(
                    self,
                ).manager().store().events_view().push(
                    event_text(
                        "health_check"@,
                        health_text(c.active as nat, c.expired as nat, c.revoked as nat),
                    ),
                )
            },
    {
        let all = self.cert_manager.store_ref().list_certificates(None);
        proof {
            crate::laws::lemma_unfiltered_is_all(self.manager().store().records_view());
        }
        let counts = count_statuses(&all);
        let data = health_payload(&counts);
        self.cert_manager.publish_event("health_check", data.as_str());
        Ok(counts)
    }
}

} // verus!
