use vstd::prelude::*;
use vstd::string::StringExecFns;

use crate::config::CertificateConfig;
use crate::error::CertAgentError;
use crate::query::{expiring, filtered, lemma_filter_narrowing, select_expiring, views};
use crate::profile::IssuedCertificate;
use crate::record::{
    expiry_at, is_uuid_text,
    event_text, expiring_at, expiry_fits, expiry_of, issued_record_view, matches_filter, new_record,
    renewal_request, renewed_record_view, revoke_data, revoke_event_data, CertificateRecord,
    CertificateRequest, RecordView,
};
use crate::signing::{leaf_model, request_fits, CaMaterial, CertModel};
use crate::sources::{fresh_certificate_id, unix_now};
use crate::status::{status_of_text, status_text, str_eq, CertStatus};
use crate::store::CertStore;

verus! {

/// The certificate lifecycle engine: issuance, renewal, revocation and the
/// read-only queries, over a store of records with an event log.
pub struct CertificateManager {
    config: CertificateConfig,
    store: CertStore,
    ca: CaMaterial,
}

/// Whether `lm` is what a leaf signed by `ca` for `req` holds, for some
/// serial seed and leaf key: see `leaf_model`.
pub open spec fn signed_for(lm: CertModel, req: CertificateRequest, ca: CaMaterial) -> bool {
    exists|seed: u32, issuer: Option<Seq<(Seq<char>, Seq<char>)>>, k: int|
        #[trigger] leaf_model(req, seed, issuer, ca.key_id(), k) == lm && (ca.cert_known() matches Some(
            c,
        ) ==> issuer == c.subject)
}

/// The validity that a renewal uses: the one asked for, else the default.
pub open spec fn renewal_days(asked: Option<u32>, default_days: u32) -> u32 {
    match asked {
        Some(d) => d,
        None => default_days,
    }
}

/// The records that a textual status filter selects.
pub open spec fn listed(s: Seq<RecordView>, filter: Option<Seq<char>>) -> Seq<RecordView> {
    match filter {
        None => filtered(s, None),
        Some(t) => match status_of_text(t) {
            Some(st) => filtered(s, Some(st)),
            None => Seq::empty(),
        },
    }
}

/// The records after revoking `id`: its status becomes revoked; an unknown
/// id leaves the records as they are.
pub open spec fn revoked_model(m: Map<Seq<char>, RecordView>, id: Seq<char>) -> Map<Seq<char>, RecordView> {
    if m.contains_key(id) {
        m.insert(id, m[id].with_status(CertStatus::Revoked))
    } else {
        m
    }
}

/// Decides a renewal: the record must exist and be active; the request then
/// carries its names and metadata with the asked validity, or the default.
pub fn renewal_plan(
    current: Option<&CertificateRecord>,
    id: &str,
    validity_days: Option<u32>,
    default_validity_days: u32,
) -> (r: Result<CertificateRequest, CertAgentError>)
    ensures
        current is None ==> (r matches Err(CertAgentError::CertificateNotFound(s)) && s@ == id@),
        current matches Some(c) && c.status != CertStatus::Active ==> (r matches Err(e)
            && e is Certificate),
        r is Ok <==> (current matches Some(c) && c.status == CertStatus::Active),
        r matches Ok(req) ==> (current matches Some(c) && {
            &&& req.common_name@ == c.common_name@
            &&& req.dns_names@ == c.dns_names@
            &&& req.ip_addresses@ == c.ip_addresses@
            &&& req.metadata@ == c.metadata@
            &&& req.validity_days == renewal_days(validity_days, default_validity_days)
            &&& req.organization is None && req.organizational_unit is None
            &&& req.country is None && req.state is None && req.locality is None
        }),
{
    let current = match current {
        Some(rec) => rec,
        None => {
            return Err(CertAgentError::CertificateNotFound(String::from_str(id)));
        },
    };
    if current.status != CertStatus::Active {
        let msg = String::from_str("Cannot renew certificate with status: ").concat(
            current.status.as_str(),
        );
        return Err(CertAgentError::Certificate(msg));
    }
    let days = match validity_days {
        Some(d) => d,
        None => default_validity_days,
    };
    Ok(renewal_request(current, days))
}

impl CertificateManager {
    /// The store that the engine works on.
    pub closed spec fn store(&self) -> CertStore {
        self.store
    }

    /// The CA the engine signs with.
    pub closed spec fn ca(&self) -> CaMaterial {
        self.ca
    }

    /// The issuance settings.
    pub closed spec fn config(&self) -> CertificateConfig {
        self.config
    }

    /// The engine's store is well formed.
    pub open spec fn wf(&self) -> bool {
        self.store().wf()
    }

    /// An engine over `store` that signs with `ca`, with the given settings.
    pub fn new(config: &CertificateConfig, store: CertStore, ca: CaMaterial) -> (r: CertificateManager)
        requires
            store.wf(),
        ensures
            r.wf(),
            r.store() == store,
            r.config() == *config,
    {
        CertificateManager { config: config.duplicate(), store, ca }
    }

    /// The configured renewal threshold in days.
    pub fn renewal_threshold_days(&self) -> (r: u32)
        ensures
            r == self.config().renewal_threshold_days,
    {
        self.config.renewal_threshold_days
    }

    /// Publishes `<event>:<data>` on the event log; the records stay as they are.
    pub fn publish_event(&mut self, event: &str, data: &str)
        requires
            old(self).wf(),
        ensures
            final(self).wf(),
            final(self).config() == old(self).config(),
            final(self).store().records_view() == old(self).store().records_view(),
            final(self).store().events_view() == old(self).store().events_view().push(
                event_text(event@, data@),
            ),
    {
        self.store.publish_event(event, data);
    }

    /// Removes the record with `id`; an unknown id changes nothing.
    pub fn delete_certificate(&mut self, id: &str)
        requires
            old(self).wf(),
        ensures
            final(self).wf(),
            final(self).config() == old(self).config(),
            final(self).store().model() == old(self).store().model().remove(id@),
            final(self).store().events_view() == old(self).store().events_view(),
    {
        self.store.delete_certificate(id);
    }

    /// The CA that the engine signs with, for reading.
    pub fn ca_ref(&self) -> (r: &CaMaterial)
        ensures
            *r == self.ca(),
    {
        &self.ca
    }

    /// The store, for reading.
    pub fn store_ref(&self) -> (r: &CertStore)
        ensures
            *r == self.store(),
    {
        &self.store
    }

    /// Issues a certificate for `request` under `id` at time `now`: signs a
    /// leaf with the CA, stores the active record and publishes
    /// `issued:<id>`. A validity whose expiry does not fit in a timestamp is
    /// refused with `InvalidRequest` before anything is signed; any failure
    /// leaves the store as it was.
    pub fn issue_with(&mut self, id: String, request: CertificateRequest, now: i64) -> (r: Result<
        IssuedCertificate,
        CertAgentError,
    >)
        requires
            old(self).wf(),
        ensures
            final(self).wf(),
            final(self).config() == old(self).config(),
            old(self).store().model().contains_key(id@) ==> (r matches Err(e) && e is Internal),
            !old(self).store().model().contains_key(id@) && !expiry_fits(now, request.validity_days)
                ==> (r matches Err(e) && e is InvalidRequest),
            !old(self).store().model().contains_key(id@) && expiry_fits(now, request.validity_days)
                && !request_fits(request) ==> (r matches Err(e) && e is InvalidRequest),
            r matches Err(e) ==> e is Internal || e is InvalidRequest || e is OpenSsl,
            r is Err ==> final(self).store() == old(self).store(),
            r matches Ok(c) ==> {
                &&& !old(self).store().model().contains_key(id@)
                &&& expiry_fits(now, request.validity_days)
                &&& c.model@ matches Some(lm) && signed_for(lm, request, old(self).ca())
                &&& c.certificate_id@ == id@
                &&& c.expires_at == expiry_of(now as int, request.validity_days)
                &&& c.status@ == status_text(CertStatus::Active)
                &&& final(self).store().model() == old(self).store().model().insert(
                    id@,
                    issued_record_view(id@, request, now as int),
                )
                &&& final(self).store().events_view() == old(self).store().events_view().push(
                    event_text("issued"@, id@),
                )
            },
    {
        if self.store.get_certificate(id.as_str()).is_some() {
            return Err(CertAgentError::Internal(String::from_str("certificate id collision")));
        }
        if let Err(e) = expiry_at(now, request.validity_days) {
            return Err(e);
        }
        let leaf = self.ca.issue_leaf(&request, self.config.key_size)?;
        let ca_pem = self.ca.certificate_pem()?;
        let rec = match new_record(id, request, now) {
            Ok(rec) => rec,
            Err(e) => return Err(e),
        };
        let issued = IssuedCertificate::from_leaf(&rec, leaf, ca_pem);
        let event_id = rec.certificate_id.clone();
        self.store.store_certificate(rec);
        self.store.publish_event("issued", event_id.as_str());
        Ok(issued)
    }

    /// Issues a certificate under a fresh random id at the current time.
    /// Whatever id and time came back, the stored record is the one that the
    /// request describes at that time, under an id that was not in use, and
    /// it is announced.
    pub fn issue_certificate(&mut self, request: CertificateRequest) -> (r: Result<
        IssuedCertificate,
        CertAgentError,
    >)
        requires
            old(self).wf(),
        ensures
            final(self).wf(),
            final(self).config() == old(self).config(),
            r is Err ==> final(self).store() == old(self).store(),
            r matches Ok(c) ==> {
                &&& c.model@ matches Some(lm) && signed_for(lm, request, old(self).ca())
                &&& is_uuid_text(c.certificate_id@)
                &&& !old(self).store().model().contains_key(c.certificate_id@)
                &&& c.status@ == status_text(CertStatus::Active)
                &&& exists|now: int|
                    final(self).store().model() == old(self).store().model().insert(
                        c.certificate_id@,
                        #[trigger] issued_record_view(c.certificate_id@, request, now),
                    ) && c.expires_at == expiry_of(now, request.validity_days)
                &&& final(self).store().events_view() == old(self).store().events_view().push(
                    event_text("issued"@, c.certificate_id@),
                )
            },
    {
        let id = fresh_certificate_id();
        let now = unix_now();
        let ghost req = request;
        let r = self.issue_with(id, request, now);
        proof {
            if r is Ok {
                let c = r->Ok_0;
                assert(self.store().model() == old(self).store().model().insert(
                    c.certificate_id@,
                    issued_record_view(c.certificate_id@, req, now as int),
                ));
            }
        }
        r
    }

    /// Marks the record with `id` revoked (an unknown id changes no record)
    /// and publishes `revoked:<id>` or `revoked:<id>:<reason>`. Always succeeds.
    pub fn revoke_certificate(&mut self, id: &str, reason: Option<&str>) -> (r: Result<
        (),
        CertAgentError,
    >)
        requires
            old(self).wf(),
        ensures
            final(self).wf(),
            final(self).config() == old(self).config(),
            r is Ok,
            final(self).store().model() == revoked_model(old(self).store().model(), id@),
            final(self).store().events_view() == old(self).store().events_view().push(
                event_text(
                    "revoked"@,
                    revoke_data(id@, match reason { Some(x) => Some(x@), None => None }),
                ),
            ),
    {
        self.store.update_certificate_status(id, CertStatus::Revoked);
        let data = revoke_event_data(id, reason);
        self.store.publish_event("revoked", data.as_str());
        Ok(())
    }

    /// Renews the record with `id` under `new_id` at time `now`: issues a
    /// signed certificate with the same names and metadata, marks the old
    /// record revoked, and publishes `issued:<new>`, `revoked:<old>`,
    /// `renewed:<new>`. Fails, changing nothing, with `CertificateNotFound`
    /// for an unknown id, `Certificate` for a record that is not active, and
    /// `InvalidRequest` when the new expiry does not fit in a timestamp.
    pub fn renew_with(&mut self, id: &str, validity_days: Option<u32>, new_id: String, now: i64) -> (r:
        Result<IssuedCertificate, CertAgentError>)
        requires
            old(self).wf(),
        ensures
            final(self).wf(),
            final(self).config() == old(self).config(),
            ({
                let m = old(self).store().model();
                let days = renewal_days(validity_days, old(self).config().default_validity_days);
                &&& !m.contains_key(id@) ==> (r matches Err(CertAgentError::CertificateNotFound(s))
                    && s@ == id@)
                &&& m.contains_key(id@) && m[id@].status != CertStatus::Active ==> (r matches Err(e)
                    && e is Certificate)
                &&& m.contains_key(id@) && m[id@].status == CertStatus::Active && m.contains_key(
                    new_id@,
                ) ==> (r matches Err(e) && e is Internal)
                &&& m.contains_key(id@) && m[id@].status == CertStatus::Active && !m.contains_key(
                    new_id@,
                ) && !expiry_fits(now, days) ==> (r matches Err(e) && e is InvalidRequest)
                &&& r is Ok ==> (m.contains_key(id@) && m[id@].status == CertStatus::Active
                    && !m.contains_key(new_id@) && expiry_fits(now, days))
                &&& r is Err ==> final(self).store() == old(self).store()
                &&& r matches Ok(c) ==> {
                    &&& c.model@ matches Some(lm) && lm.subject == Some(
                        seq![("CN"@, m[id@].common_name)],
                    )
                    &&& c.certificate_id@ == new_id@
                    &&& c.expires_at == expiry_of(now as int, days)
                    &&& final(self).store().model() == m.insert(
                        new_id@,
                        renewed_record_view(m[id@], new_id@, days, now as int),
                    ).insert(id@, m[id@].with_status(CertStatus::Revoked))
                    &&& final(self).store().events_view() == old(
                        self,
                    ).store().events_view().push(event_text("issued"@, new_id@)).push(
                        event_text("revoked"@, id@),
                    ).push(event_text("renewed"@, new_id@))
                }
            }),
    {
        let ghost m = self.store.model();
        let current = self.store.get_certificate(id);
        let days = match validity_days {
            Some(d) => d,
            None => self.config.default_validity_days,
        };
        let request = match renewal_plan(current.as_ref(), id, validity_days, self.config.default_validity_days) {
            Ok(req) => req,
            Err(e) => return Err(e),
        };
        let ghost req = request;
        let new_key = new_id.clone();
        let issued = self.issue_with(new_id, request, now);
        match issued {
            Ok(c) => {
                proof {
                    let lm = c.model@->Some_0;
                    let (seed, iss, k) = choose|seed: u32, iss: Option<Seq<(Seq<char>, Seq<char>)>>, k: int|
                        #[trigger] leaf_model(req, seed, iss, self.ca.key_id(), k) == lm && (
                        self.ca.cert_known() matches Some(cc) ==> iss == cc.subject);
                    crate::laws::lemma_renewal_subject_is_cn_only(req);
                    assert(issued_record_view(new_key@, req, now as int) =~= renewed_record_view(
                        m[id@],
                        new_key@,
                        days,
                        now as int,
                    ));
                    assert(self.store.model().contains_key(id@));
                    assert(self.store.model()[id@] == m[id@]);
                }
                self.store.update_certificate_status(id, CertStatus::Revoked);
                self.store.publish_event("revoked", id);
                self.store.publish_event("renewed", new_key.as_str());
                Ok(c)
            },
            Err(e) => Err(e),
        }
    }

    /// Renews the record with `id` under a fresh random id at the current
    /// time; see `renew_with` for what happens (a fresh id already in use is
    /// refused with `Internal`, changing nothing).
    pub fn renew_certificate(&mut self, id: &str, validity_days: Option<u32>) -> (r: Result<
        IssuedCertificate,
        CertAgentError,
    >)
        requires
            old(self).wf(),
        ensures
            final(self).wf(),
            final(self).config() == old(self).config(),
            ({
                let m = old(self).store().model();
                let days = renewal_days(validity_days, old(self).config().default_validity_days);
                &&& !m.contains_key(id@) ==> (r matches Err(CertAgentError::CertificateNotFound(s))
                    && s@ == id@)
                &&& m.contains_key(id@) && m[id@].status != CertStatus::Active ==> (r matches Err(e)
                    && e is Certificate)
                &&& r is Ok ==> m.contains_key(id@) && m[id@].status == CertStatus::Active
                &&& r is Err ==> final(self).store() == old(self).store()
                &&& r matches Ok(c) ==> {
                    &&& is_uuid_text(c.certificate_id@)
                    &&& c.model@ matches Some(lm) && lm.subject == Some(
                        seq![("CN"@, m[id@].common_name)],
                    )
                    &&& !m.contains_key(c.certificate_id@)
                    &&& exists|now: int|
                        final(self).store().model() == m.insert(
                            c.certificate_id@,
                            #[trigger] renewed_record_view(m[id@], c.certificate_id@, days, now),
                        ).insert(id@, m[id@].with_status(CertStatus::Revoked))
                    &&& final(self).store().events_view() == old(
                        self,
                    ).store().events_view().push(event_text("issued"@, c.certificate_id@)).push(
                        event_text("revoked"@, id@),
                    ).push(event_text("renewed"@, c.certificate_id@))
                }
            }),
    {
        let new_id = fresh_certificate_id();
        let now = unix_now();
        let r = self.renew_with(id, validity_days, new_id, now);
        proof {
            if r is Ok {
                let c = r->Ok_0;
                let m = old(self).store().model();
                let days = renewal_days(validity_days, old(self).config().default_validity_days);
                assert(self.store().model() == m.insert(
                    c.certificate_id@,
                    renewed_record_view(m[id@], c.certificate_id@, days, now as int),
                ).insert(id@, m[id@].with_status(CertStatus::Revoked)));
            }
        }
        r
    }

    /// The record with `id`, if any. Never fails.
    pub fn get_certificate_status(&self, id: &str) -> (r: Result<
        Option<CertificateRecord>,
        CertAgentError,
    >)
        requires
            self.wf(),
        ensures
            r matches Ok(found) && (found is Some <==> self.store().model().contains_key(id@)),
            r matches Ok(Some(x)) ==> x@ == self.store().model()[id@] && x@.well_formed(),
    {
        Ok(self.store.get_certificate(id))
    }

    /// The records whose status text equals `status_filter` (all of them for
    /// `None`), in storage order. Never fails.
    pub fn list_certificates(&self, status_filter: Option<&str>) -> (r: Result<
        Vec<CertificateRecord>,
        CertAgentError,
    >)
        ensures
            r matches Ok(v) && views(v@) == listed(
                self.store().records_view(),
                match status_filter { Some(t) => Some(t@), None => None },
            ),
    {
        let out = match status_filter {
            None => self.store.list_certificates(None),
            Some(t) => match CertStatus::parse(t) {
                Some(st) => self.store.list_certificates(Some(st)),
                None => Vec::new(),
            },
        };
        proof {
            if let Some(t) = status_filter {
                if status_of_text(t@) is None {
                    assert(views(out@) =~= Seq::<RecordView>::empty());
                }
            }
        }
        Ok(out)
    }

    /// The active records that expire within `(0, threshold_days·86400]`
    /// seconds of `now`, in storage order.
    pub fn expiring_within(&self, now: i64, threshold_days: u32) -> (r: Vec<CertificateRecord>)
        ensures
            views(r@) == expiring(self.store().records_view(), now as int, threshold_days),
    {
        let active = self.store.list_certificates(Some(CertStatus::Active));
        let out = select_expiring(&active, now, threshold_days);
        proof {
            let s = self.store().records_view();
            assert(views(active@) == filtered(s, Some(CertStatus::Active)));
            let p = |v: RecordView| matches_filter(v, Some(CertStatus::Active));
            let q = |v: RecordView| expiring_at(v, now as int, threshold_days);
            assert forall|v: RecordView| #[trigger] q(v) implies p(v) by {}
            lemma_filter_narrowing(s, p, q);
            assert(filtered(s, Some(CertStatus::Active)) == s.filter(p));
            assert(expiring(s, now as int, threshold_days) == s.filter(q));
        }
        out
    }

    /// The records due for renewal at the current time, by the configured
    /// threshold.
    pub fn get_expiring_certificates(&self) -> (r: Result<Vec<CertificateRecord>, CertAgentError>)
        ensures
            r matches Ok(v) && exists|now: int|
                views(v@) == expiring(
                    self.store().records_view(),
                    now,
                    self.config().renewal_threshold_days,
                ),
    {
        let now = unix_now();
        let v = self.expiring_within(now, self.config.renewal_threshold_days);
        proof {
            assert(views(v@) == expiring(
                self.store().records_view(),
                now as int,
                self.config().renewal_threshold_days,
            ));
        }
        Ok(v)
    }
}

} // verus!
