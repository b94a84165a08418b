use vstd::prelude::*;
use vstd::string::StringExecFns;

use crate::record::{CertificateRecord, CertificateRequest};
use crate::signing::{CertModel, LeafMaterial};
use crate::status::status_text;

verus! {

/// Validity of the self-signed CA certificate, in days.
pub const CA_VALIDITY_DAYS: u32 = 3650;

/// Serial number of the self-signed CA certificate.
pub const CA_SERIAL: u32 = 1;

/// Path-length constraint of the CA certificate.
pub const CA_PATH_LEN: u32 = 0;

/// An entry of an X.509 subject or issuer name: field short name and value.
pub struct NameEntry {
    pub field: String,
    pub value: String,
}

/// A subject alternative name.
pub enum SanEntry {
    Dns(String),
    Ip(String),
}

/// Spec value of a name entry.
pub open spec fn entry_view(e: NameEntry) -> (Seq<char>, Seq<char>) {
    (e.field@, e.value@)
}

/// Spec value of a SAN entry: `(is_ip, text)`.
pub open spec fn san_view(e: SanEntry) -> (bool, Seq<char>) {
    match e {
        SanEntry::Dns(s) => (false, s@),
        SanEntry::Ip(s) => (true, s@),
    }
}

/// The entry for an optional component: present only when supplied and
/// non-empty.
pub open spec fn optional_entry(field: Seq<char>, v: Option<String>) -> Seq<(Seq<char>, Seq<char>)> {
    match v {
        Some(s) => if s@.len() > 0 {
            seq![(field, s@)]
        } else {
            Seq::empty()
        },
        None => Seq::empty(),
    }
}

/// The subject of a leaf: CN, then O, OU, C, ST, L where supplied and non-empty.
pub open spec fn subject_of(req: CertificateRequest) -> Seq<(Seq<char>, Seq<char>)> {
    seq![("CN"@, req.common_name@)] + optional_entry("O"@, req.organization) + optional_entry(
        "OU"@,
        req.organizational_unit,
    ) + optional_entry("C"@, req.country) + optional_entry("ST"@, req.state) + optional_entry(
        "L"@,
        req.locality,
    )
}

/// The SAN list of a leaf: every DNS name, then every IP address, in order.
pub open spec fn sans_of(dns: Seq<String>, ips: Seq<String>) -> Seq<(bool, Seq<char>)> {
    dns.map_values(|s: String| (false, s@)) + ips.map_values(|s: String| (true, s@))
}

/// The well-known subject (and issuer) of the CA certificate.
pub open spec fn ca_subject() -> Seq<(Seq<char>, Seq<char>)> {
    seq![("CN"@, "Cert Agent CA"@), ("O"@, "Cert Agent"@), ("C"@, "US"@)]
}

fn entry(field: &str, value: &str) -> (r: NameEntry)
    ensures
        entry_view(r) == (field@, value@),
{
    NameEntry { field: String::from_str(field), value: String::from_str(value) }
}

fn push_optional(out: &mut Vec<NameEntry>, field: &str, v: &Option<String>)
    ensures
        final(out)@.map_values(|e: NameEntry| entry_view(e)) == old(out)@.map_values(
            |e: NameEntry| entry_view(e),
        ) + optional_entry(field@, *v),
{
    let ghost before = out@.map_values(|e: NameEntry| entry_view(e));
    match v {
        Some(s) => if s.as_str().is_empty() {
            assert(before + optional_entry(field@, *v) =~= before);
        } else {
            out.push(entry(field, s.as_str()));
            assert(out@.map_values(|e: NameEntry| entry_view(e)) =~= before + optional_entry(field@, *v));
        },
        None => {
            assert(before + optional_entry(field@, *v) =~= before);
        },
    }
}

/// The subject name entries of a leaf certificate for `request`.
pub fn subject_entries(request: &CertificateRequest) -> (r: Vec<NameEntry>)
    ensures
        r@.map_values(|e: NameEntry| entry_view(e)) == subject_of(*request),
{
    let mut out: Vec<NameEntry> = Vec::new();
    out.push(entry("CN", request.common_name.as_str()));
    proof {
        assert(out@.map_values(|e: NameEntry| entry_view(e)) =~= seq![("CN"@, request.common_name@)]);
    }
    push_optional(&mut out, "O", &request.organization);
    push_optional(&mut out, "OU", &request.organizational_unit);
    push_optional(&mut out, "C", &request.country);
    push_optional(&mut out, "ST", &request.state);
    push_optional(&mut out, "L", &request.locality);
    out
}

/// The subject (and issuer) name entries of the CA certificate.
pub fn ca_subject_entries() -> (r: Vec<NameEntry>)
    ensures
        r@.map_values(|e: NameEntry| entry_view(e)) == ca_subject(),
{
    let mut out: Vec<NameEntry> = Vec::new();
    out.push(entry("CN", "Cert Agent CA"));
    out.push(entry("O", "Cert Agent"));
    out.push(entry("C", "US"));
    proof {
        assert(out@.map_values(|e: NameEntry| entry_view(e)) =~= ca_subject());
    }
    out
}

/// The subject alternative names of a leaf: DNS names, then IP addresses.
pub fn san_entries(dns_names: &Vec<String>, ip_addresses: &Vec<String>) -> (r: Vec<SanEntry>)
    ensures
        r@.map_values(|e: SanEntry| san_view(e)) == sans_of(dns_names@, ip_addresses@),
{
    let mut out: Vec<SanEntry> = Vec::new();
    let mut i: usize = 0;
    while i < dns_names.len()
        invariant
            i <= dns_names@.len(),
            out@.map_values(|e: SanEntry| san_view(e)) == dns_names@.subrange(0, i as int).map_values(
                |s: String| (false, s@),
            ),
        decreases dns_names.len() - i,
    {
        let ghost prev = out@.map_values(|e: SanEntry| san_view(e));
        let name = dns_names[i].clone();
        out.push(SanEntry::Dns(name));
        proof {
            assert(out@.map_values(|e: SanEntry| san_view(e)) =~= prev.push((false, dns_names@[i as int]@)));
            assert(dns_names@.subrange(0, i + 1 as int).map_values(|s: String| (false, s@)) =~= dns_names@.subrange(0, i as int).map_values(|s: String| (false, s@)).push((false, dns_names@[i as int]@)));
            assert(out@.map_values(|e: SanEntry| san_view(e)) =~= dns_names@.subrange(
                0,
                i + 1 as int,
            ).map_values(|s: String| (false, s@)));
        }
        i = i + 1;
    }
    let ghost head = out@.map_values(|e: SanEntry| san_view(e));
    proof {
        assert(dns_names@.subrange(0, dns_names@.len() as int) =~= dns_names@);
    }
    let mut j: usize = 0;
    while j < ip_addresses.len()
        invariant
            j <= ip_addresses@.len(),
            head == dns_names@.map_values(|s: String| (false, s@)),
            out@.map_values(|e: SanEntry| san_view(e)) == head + ip_addresses@.subrange(
                0,
                j as int,
            ).map_values(|s: String| (true, s@)),
        decreases ip_addresses.len() - j,
    {
        let ghost prev = out@.map_values(|e: SanEntry| san_view(e));
        let addr = ip_addresses[j].clone();
        out.push(SanEntry::Ip(addr));
        proof {
            assert(out@.map_values(|e: SanEntry| san_view(e)) =~= prev.push((true, ip_addresses@[j as int]@)));
            assert(ip_addresses@.subrange(0, j + 1 as int).map_values(|s: String| (true, s@)) =~= ip_addresses@.subrange(0, j as int).map_values(|s: String| (true, s@)).push((true, ip_addresses@[j as int]@)));
            assert(out@.map_values(|e: SanEntry| san_view(e)) =~= head + ip_addresses@.subrange(
                0,
                j + 1 as int,
            ).map_values(|s: String| (true, s@)));
        }
        j = j + 1;
    }
    proof {
        assert(ip_addresses@.subrange(0, ip_addresses@.len() as int) =~= ip_addresses@);
    }
    out
}

/// The serial number of a leaf drawn from `raw`: `raw` itself, or 1 when
/// `raw` is zero, so that a serial is never zero.
pub fn leaf_serial(raw: u32) -> (r: u32)
    ensures
        r != 0,
        r == (if raw == 0 { 1 } else { raw }),
{
    if raw == 0 {
        1
    } else {
        raw
    }
}

/// The outcome of an issuance handed back to the caller, with the PEM
/// material that the signing layer produced.
pub struct IssuedCertificate {
    pub certificate_id: String,
    pub certificate_pem: String,
    pub private_key_pem: String,
    pub ca_certificate_pem: String,
    pub expires_at: i64,
    pub status: String,
    /// What the issued certificate holds, when it was signed here.
    pub model: Ghost<Option<CertModel>>,
}

impl IssuedCertificate {
    /// The issued result for `record` with its PEM material.
    pub fn from_record(
        record: &CertificateRecord,
        certificate_pem: String,
        private_key_pem: String,
        ca_certificate_pem: String,
    ) -> (r: IssuedCertificate)
        ensures
            r.certificate_id@ == record.certificate_id@,
            r.certificate_pem == certificate_pem,
            r.private_key_pem == private_key_pem,
            r.ca_certificate_pem == ca_certificate_pem,
            r.expires_at == record.expires_at,
            r.status@ == status_text(record.status),
    {
        IssuedCertificate {
            certificate_id: record.certificate_id.clone(),
            certificate_pem,
            private_key_pem,
            ca_certificate_pem,
            expires_at: record.expires_at,
            status: record.status.to_text(),
            model: Ghost(None),
        }
    }

    /// The issued result for `record` with the leaf signed for it.
    pub fn from_leaf(record: &CertificateRecord, leaf: LeafMaterial, ca_certificate_pem: String) -> (r:
        IssuedCertificate)
        ensures
            r.certificate_id@ == record.certificate_id@,
            r.certificate_pem == leaf.certificate_pem,
            r.private_key_pem == leaf.private_key_pem,
            r.ca_certificate_pem == ca_certificate_pem,
            r.expires_at == record.expires_at,
            r.status@ == status_text(record.status),
            r.model@ == Some(leaf.model@),
    {
        IssuedCertificate {
            certificate_id: record.certificate_id.clone(),
            certificate_pem: leaf.certificate_pem,
            private_key_pem: leaf.private_key_pem,
            ca_certificate_pem,
            expires_at: record.expires_at,
            status: record.status.to_text(),
            model: Ghost(Some(leaf.model@)),
        }
    }
}

} // verus!
