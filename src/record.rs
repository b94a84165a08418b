use std::collections::HashMap;
use vstd::prelude::*;
use vstd::string::StringExecFns;

use crate::error::CertAgentError;
use crate::status::CertStatus;

verus! {

/// Seconds in one day.
pub const SECONDS_PER_DAY: i64 = 86400;

/// Lifetime given to a stored record as a safety net (one year, in seconds);
/// it is refreshed whenever the record is written again.
pub const RECORD_TTL_SECONDS: u64 = 31536000;

/// Key of the set that indexes every stored id.
pub const INDEX_KEY: &'static str = "certs:all";

/// Channel on which lifecycle events are published.
pub const EVENT_CHANNEL: &'static str = "cert_events";

/// The canonical per-certificate entity kept in the store.
pub struct CertificateRecord {
    pub certificate_id: String,
    pub common_name: String,
    pub dns_names: Vec<String>,
    pub ip_addresses: Vec<String>,
    pub status: CertStatus,
    pub expires_at: i64,
    pub issued_at: i64,
    pub metadata: HashMap<String, String>,
}

/// A lowercase hexadecimal digit.
pub open spec fn is_lower_hex(c: char) -> bool {
    ('0' <= c && c <= '9') || ('a' <= c && c <= 'f')
}

/// The hyphenated lowercase form of a UUID: 8-4-4-4-12 hexadecimal digits.
pub open spec fn is_uuid_text(s: Seq<char>) -> bool {
    &&& s.len() == 36
    &&& forall|i: int|
        0 <= i < 36 ==> if i == 8 || i == 13 || i == 18 || i == 23 {
            s[i] == '-'
        } else {
            is_lower_hex(#[trigger] s[i])
        }
}

/// Mathematical value of a record.
pub struct RecordView {
    pub certificate_id: Seq<char>,
    pub common_name: Seq<char>,
    pub dns_names: Seq<Seq<char>>,
    pub ip_addresses: Seq<Seq<char>>,
    pub status: CertStatus,
    pub expires_at: int,
    pub issued_at: int,
    pub metadata: Map<String, String>,
}

/// The characters of each string of a sequence.
pub open spec fn texts(v: Seq<String>) -> Seq<Seq<char>> {
    v.map_values(|s: String| s@)
}

impl View for CertificateRecord {
    type V = RecordView;

    open spec fn view(&self) -> RecordView {
        RecordView {
            certificate_id: self.certificate_id@,
            common_name: self.common_name@,
            dns_names: texts(self.dns_names@),
            ip_addresses: texts(self.ip_addresses@),
            status: self.status,
            expires_at: self.expires_at as int,
            issued_at: self.issued_at as int,
            metadata: self.metadata@,
        }
    }
}

impl RecordView {
    /// The same record with another status; nothing else changes.
    pub open spec fn with_status(self, s: CertStatus) -> RecordView {
        RecordView { status: s, ..self }
    }

    /// A record is well formed when it was issued no later than it expires.
    pub open spec fn well_formed(self) -> bool {
        self.issued_at <= self.expires_at
    }
}

/// A request for a new leaf certificate. Never stored.
pub struct CertificateRequest {
    pub common_name: String,
    pub dns_names: Vec<String>,
    pub ip_addresses: Vec<String>,
    pub validity_days: u32,
    pub organization: Option<String>,
    pub organizational_unit: Option<String>,
    pub country: Option<String>,
    pub state: Option<String>,
    pub locality: Option<String>,
    pub metadata: HashMap<String, String>,
}

/// Copies a sequence of strings.
pub fn clone_strings(v: &Vec<String>) -> (r: Vec<String>)
    ensures
        r@ == v@,
{
    let mut r: Vec<String> = Vec::new();
    let mut i: usize = 0;
    while i < v.len()
        invariant
            i <= v.len(),
            r@ == v@.subrange(0, i as int),
        decreases v.len() - i,
    {
        r.push(v[i].clone());
        proof {
            assert(v@.subrange(0, i + 1 as int) =~= v@.subrange(0, i as int).push(v@[i as int]));
        }
        i = i + 1;
    }
    proof {
        assert(v@.subrange(0, v.len() as int) =~= v@);
    }
    r
}

impl CertificateRecord {
    /// An exact copy of the record.
    pub fn duplicate(&self) -> (r: CertificateRecord)
        ensures
            r@ == self@,
    {
        CertificateRecord {
            certificate_id: self.certificate_id.clone(),
            common_name: self.common_name.clone(),
            dns_names: clone_strings(&self.dns_names),
            ip_addresses: clone_strings(&self.ip_addresses),
            status: self.status,
            expires_at: self.expires_at,
            issued_at: self.issued_at,
            metadata: self.metadata.clone(),
        }
    }
}

/// Expiry instant of a certificate issued at `now` for `days` days.
pub open spec fn expiry_of(now: int, days: u32) -> int {
    now + days as int * SECONDS_PER_DAY as int
}

/// Whether a record issued at `now` for `days` days has an expiry that fits
/// in the record's timestamp type.
pub open spec fn expiry_fits(now: i64, days: u32) -> bool {
    expiry_of(now as int, days) <= i64::MAX as int
}

/// The expiry of a certificate issued at `now` for `days` days; refused with
/// `InvalidRequest` exactly when it does not fit in a timestamp.
pub fn expiry_at(now: i64, days: u32) -> (r: Result<i64, CertAgentError>)
    ensures
        r is Ok <==> expiry_fits(now, days),
        r matches Ok(t) ==> t == expiry_of(now as int, days),
        r matches Err(e) ==> e is InvalidRequest,
{
    let span: i64 = days as i64 * SECONDS_PER_DAY;
    match now.checked_add(span) {
        Some(t) => Ok(t),
        None => Err(CertAgentError::InvalidRequest(String::from_str("validity exceeds the time range"))),
    }
}

/// The record that issuance writes for `request` under `id` at time `now`.
pub open spec fn issued_record_view(id: Seq<char>, req: CertificateRequest, now: int) -> RecordView {
    RecordView {
        certificate_id: id,
        common_name: req.common_name@,
        dns_names: texts(req.dns_names@),
        ip_addresses: texts(req.ip_addresses@),
        status: CertStatus::Active,
        expires_at: expiry_of(now, req.validity_days),
        issued_at: now,
        metadata: req.metadata@,
    }
}

/// The record that renewal of `old` writes under `id` at time `now`: the
/// names and metadata carry over, the status is active, and the validity
/// starts afresh.
pub open spec fn renewed_record_view(old: RecordView, id: Seq<char>, days: u32, now: int) -> RecordView {
    RecordView {
        certificate_id: id,
        status: CertStatus::Active,
        issued_at: now,
        expires_at: expiry_of(now, days),
        ..old
    }
}

/// The request that renews a record: its names and metadata, the given
/// validity, and no subject components beyond the common name.
pub fn renewal_request(record: &CertificateRecord, validity_days: u32) -> (r: CertificateRequest)
    ensures
        r.common_name@ == record.common_name@,
        r.dns_names@ == record.dns_names@,
        r.ip_addresses@ == record.ip_addresses@,
        r.metadata@ == record.metadata@,
        r.validity_days == validity_days,
        r.organization is None,
        r.organizational_unit is None,
        r.country is None,
        r.state is None,
        r.locality is None,
{
    CertificateRequest {
        common_name: record.common_name.clone(),
        dns_names: clone_strings(&record.dns_names),
        ip_addresses: clone_strings(&record.ip_addresses),
        validity_days,
        organization: None,
        organizational_unit: None,
        country: None,
        state: None,
        locality: None,
        metadata: record.metadata.clone(),
    }
}

/// Builds the active record for a freshly issued certificate.
/// Fails with `InvalidRequest` exactly when the expiry does not fit.
pub fn new_record(id: String, request: CertificateRequest, now: i64) -> (r: Result<
    CertificateRecord,
    CertAgentError,
>)
    ensures
        r is Ok <==> expiry_fits(now, request.validity_days),
        r matches Ok(rec) ==> rec@ == issued_record_view(id@, request, now as int),
        r matches Ok(rec) ==> rec@.well_formed(),
        r matches Err(e) ==> e is InvalidRequest,
{
    let span: i64 = request.validity_days as i64 * SECONDS_PER_DAY;
    match now.checked_add(span) {
        Some(expires_at) => Ok(
            CertificateRecord {
                certificate_id: id,
                common_name: request.common_name,
                dns_names: request.dns_names,
                ip_addresses: request.ip_addresses,
                status: CertStatus::Active,
                expires_at,
                issued_at: now,
                metadata: request.metadata,
            },
        ),
        None => Err(CertAgentError::InvalidRequest(String::from_str("validity exceeds the time range"))),
    }
}

/// Key under which a record is stored: `cert:<id>`.
pub fn record_key(id: &str) -> (r: String)
    ensures
        r@ == "cert:"@ + id@,
{
    String::from_str("cert:").concat(id)
}

/// Payload of an event on the event channel: `<event>:<data>`.
pub open spec fn event_text(event: Seq<char>, data: Seq<char>) -> Seq<char> {
    event + ":"@ + data
}

/// Builds an event payload.
pub fn event_payload(event: &str, data: &str) -> (r: String)
    ensures
        r@ == event_text(event@, data@),
{
    String::from_str(event).concat(":").concat(data)
}

/// Data of a revocation event: the id, then `:<reason>` when one is given.
pub open spec fn revoke_data(id: Seq<char>, reason: Option<Seq<char>>) -> Seq<char> {
    match reason {
        Some(why) => id + ":"@ + why,
        None => id,
    }
}

/// Builds the data of a revocation event.
pub fn revoke_event_data(id: &str, reason: Option<&str>) -> (r: String)
    ensures
        r@ == revoke_data(id@, match reason { Some(x) => Some(x@), None => None }),
{
    match reason {
        Some(why) => String::from_str(id).concat(":").concat(why),
        None => String::from_str(id),
    }
}

/// Whether a record passes a status filter: any record for `None`, else one
/// with exactly that status.
pub open spec fn matches_filter(v: RecordView, filter: Option<CertStatus>) -> bool {
    match filter {
        Some(s) => v.status == s,
        None => true,
    }
}

/// Whether a record is active and expires within `(0, threshold_days·86400]`
/// seconds of `now`.
pub open spec fn expiring_at(v: RecordView, now: int, threshold_days: u32) -> bool {
    &&& v.status == CertStatus::Active
    &&& 0 < v.expires_at - now
    &&& v.expires_at - now <= threshold_days as int * SECONDS_PER_DAY as int
}

/// Decides whether a record is due for renewal.
pub fn is_expiring(record: &CertificateRecord, now: i64, threshold_days: u32) -> (r: bool)
    ensures
        r == expiring_at(record@, now as int, threshold_days),
{
    let left: i128 = record.expires_at as i128 - now as i128;
    let window: i128 = threshold_days as i128 * 86400;
    record.status == CertStatus::Active && 0 < left && left <= window
}

} // verus!
