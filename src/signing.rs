use openssl::asn1::Asn1Time;
use openssl::bn::BigNum;
use openssl::error::ErrorStack;
use openssl::hash::MessageDigest;
use openssl::pkey::{PKey, Private};
use openssl::rsa::Rsa;
use openssl::x509::extension::{BasicConstraints, ExtendedKeyUsage, KeyUsage, SubjectAlternativeName};
use openssl::x509::{X509Builder, X509Extension, X509Name, X509NameBuilder, X509};
use vstd::prelude::*;
use vstd::string::{StrSliceExecFns, StringExecFns, StringSliceAdditionalSpecFns};
use vstd::utf8::encode_utf8;

use crate::error::CertAgentError;
use crate::profile::{
    ca_subject, ca_subject_entries, entry_view, leaf_serial, san_entries, san_view, sans_of,
    subject_entries, subject_of, NameEntry, SanEntry, CA_PATH_LEN, CA_SERIAL, CA_VALIDITY_DAYS,
};
use crate::record::CertificateRequest;
use crate::sources::random_serial_seed;

verus! {

#[verifier::external_type_specification]
#[verifier::external_body]
pub struct ExErrorStack(ErrorStack);

#[verifier::external_type_specification]
#[verifier::external_body]
pub struct ExX509Name(X509Name);

#[verifier::external_type_specification]
#[verifier::external_body]
pub struct ExX509NameBuilder(X509NameBuilder);

#[verifier::external_type_specification]
#[verifier::external_body]
pub struct ExX509(X509);

#[verifier::external_type_specification]
#[verifier::external_body]
pub struct ExX509Builder(X509Builder);

#[verifier::external_type_specification]
#[verifier::external_body]
pub struct ExX509Extension(X509Extension);

#[verifier::external_type_specification]
#[verifier::external_body]
pub struct ExSubjectAlternativeName(SubjectAlternativeName);

#[verifier::external_type_specification]
#[verifier::external_body]
pub struct ExPrivate(Private);

#[verifier::external_type_specification]
#[verifier::external_body]
pub struct ExKeyUsage(KeyUsage);

#[verifier::external_type_specification]
#[verifier::external_body]
pub struct ExExtendedKeyUsage(ExtendedKeyUsage);

#[verifier::external_type_specification]
#[verifier::external_body]
pub struct ExBasicConstraints(BasicConstraints);

#[verifier::external_type_specification]
#[verifier::external_body]
pub struct ExMessageDigest(MessageDigest);

#[verifier::external_type_specification]
#[verifier::external_body]
#[verifier::reject_recursive_types(T)]
pub struct ExPKey<T>(PKey<T>);

/// Whether OpenSSL parses `pem` as a private key when every passphrase
/// prompt is answered with the empty passphrase; it depends on the bytes alone.
pub uninterp spec fn pem_private_key_parses(pem: Seq<u8>) -> bool;

/// Whether OpenSSL accepts `field=value` as a name entry (a known field name
/// and a value its string type allows); it depends on the two texts alone.
pub uninterp spec fn name_entry_accepted(field: Seq<char>, value: Seq<char>) -> bool;

/// A key usage bit.
#[derive(PartialEq, Eq, Structural)]
pub enum UsageFlag {
    DigitalSignature,
    KeyEncipherment,
    KeyCertSign,
    CrlSign,
}

/// An extended key usage purpose.
#[derive(PartialEq, Eq, Structural)]
pub enum PurposeFlag {
    ServerAuth,
    ClientAuth,
}

/// What an X.509v3 extension says.
pub enum ExtModel {
    /// Subject alternative names: `(is_ip, text)` in order.
    San(Seq<(bool, Seq<char>)>),
    KeyUsage(Seq<UsageFlag>),
    ExtendedKeyUsage(Seq<PurposeFlag>),
    /// CA flag and path-length constraint.
    BasicConstraints(bool, Option<u32>),
}

/// What a certificate under construction, or a finished one, holds: the
/// version field, subject and issuer entries, serial, validity in days from
/// the moment of building, extensions in order, the key whose public half it
/// carries, and the key and digest it was signed with. Keys are named by the
/// identity each key value carries; nothing says that two keys' identities
/// differ.
pub struct CertModel {
    pub version: Option<i32>,
    pub subject: Option<Seq<(Seq<char>, Seq<char>)>>,
    pub issuer: Option<Seq<(Seq<char>, Seq<char>)>>,
    pub serial: Option<u32>,
    pub not_before_days: Option<u32>,
    pub not_after_days: Option<u32>,
    pub extensions: Seq<ExtModel>,
    pub public_key: Option<int>,
    pub signature: Option<(int, Seq<char>)>,
}

/// A builder with nothing set.
pub open spec fn empty_cert_model() -> CertModel {
    CertModel {
        version: None,
        subject: None,
        issuer: None,
        serial: None,
        not_before_days: None,
        not_after_days: None,
        extensions: Seq::empty(),
        public_key: None,
        signature: None,
    }
}

/// Relies on `ErrorStack`'s `Display`: the text of the collected OpenSSL errors.
#[verifier::external_body]
fn error_text(e: &ErrorStack) -> String {
    e.to_string()
}

/// A crypto failure as the library's own error.
fn crypto_error(e: ErrorStack) -> (r: CertAgentError)
    ensures
        r is OpenSsl,
{
    CertAgentError::OpenSsl(error_text(&e))
}

/// Passes an OpenSSL outcome on, mapping its error.
fn openssl_result<T>(r: Result<T, ErrorStack>) -> (out: Result<T, CertAgentError>)
    ensures
        r is Ok <==> out is Ok,
        r matches Ok(v) ==> out == Ok::<T, CertAgentError>(v),
        out matches Err(e) ==> e is OpenSsl,
{
    match r {
        Ok(v) => Ok(v),
        Err(e) => Err(crypto_error(e)),
    }
}

/// A private key, with an identity that certificates built with it record.
pub struct CertKey {
    inner: PKey<Private>,
    id: Ghost<int>,
}

impl CertKey {
    /// The key's identity.
    pub closed spec fn id(&self) -> int {
        self.id@
    }

    /// Relies on `Rsa::generate` and `PKey::from_rsa`: a fresh RSA private key
    /// of `bits` bits.
    #[verifier::external_body]
    fn generate_rsa(bits: u32) -> Result<CertKey, ErrorStack> {
        let inner = PKey::from_rsa(Rsa::generate(bits)?)?;
        Ok(CertKey { inner, id: Ghost(0) })
    }

    /// Relies on `PKey::private_key_from_pem_passphrase` with the empty
    /// passphrase, so that no prompt is ever made. It asserts that the input
    /// fits a C `int` length.
    #[verifier::external_body]
    fn from_pem(pem: &Vec<u8>) -> (r: Result<CertKey, ErrorStack>)
        requires
            pem@.len() <= i32::MAX,
        ensures
            r is Ok <==> pem_private_key_parses(pem@),
    {
        let inner = PKey::private_key_from_pem_passphrase(pem, b"")?;
        Ok(CertKey { inner, id: Ghost(0) })
    }

    /// Relies on `PKeyRef::private_key_to_pem_pkcs8`: the key as PKCS#8 PEM
    /// text (PEM is ASCII, so the lossy UTF-8 reading keeps every byte). Keys
    /// of this type are RSA keys or keys read from PEM, which always encode.
    #[verifier::external_body]
    fn to_pem(&self) -> (r: Result<String, ErrorStack>)
        ensures
            r is Ok,
    {
        let pem = self.inner.private_key_to_pem_pkcs8()?;
        Ok(String::from_utf8_lossy(&pem).into_owned())
    }
}

/// Room in bytes that a name entry takes in the name's size budget.
pub open spec fn entry_cost(e: (Seq<char>, Seq<char>)) -> int {
    (encode_utf8(e.0).len() as usize) as int + (encode_utf8(e.1).len() as usize) as int + 64
}

/// Total room that a list of name entries takes.
pub open spec fn entries_cost(s: Seq<(Seq<char>, Seq<char>)>) -> int
    decreases s.len(),
{
    if s.len() == 0 {
        0
    } else {
        entries_cost(s.drop_last()) + entry_cost(s.last())
    }
}

/// Budget for the encoded size of a name, well below the size OpenSSL
/// decodes back when the name is finished.
pub const NAME_BUDGET: u64 = 65536;

/// An X.509 name under construction, with the entries appended so far.
pub struct NameBuilder {
    inner: X509NameBuilder,
    entries: Ghost<Seq<(Seq<char>, Seq<char>)>>,
}

/// A finished X.509 name with its entries.
pub struct Name {
    inner: X509Name,
    entries: Ghost<Seq<(Seq<char>, Seq<char>)>>,
}

impl Name {
    /// The entries, in order.
    pub closed spec fn entries(&self) -> Seq<(Seq<char>, Seq<char>)> {
        self.entries@
    }
}

impl NameBuilder {
    /// The entries appended so far.
    pub closed spec fn entries(&self) -> Seq<(Seq<char>, Seq<char>)> {
        self.entries@
    }

    /// Relies on `X509Name::builder`: an empty name builder; `X509_NAME_new`
    /// fails only when memory cannot be had.
    #[verifier::external_body]
    fn new() -> (r: Result<NameBuilder, ErrorStack>)
        ensures
            r is Ok,
            r matches Ok(b) ==> b.entries() == Seq::<(Seq<char>, Seq<char>)>::empty(),
    {
        let inner = X509Name::builder()?;
        Ok(NameBuilder { inner, entries: Ghost(Seq::empty()) })
    }

    /// Relies on `X509NameBuilder::append_entry_by_text`: appends `field=value`
    /// at the end. It panics on a field holding a NUL character and on a
    /// value longer than a C `int` can count, so those are excluded.
    #[verifier::external_body]
    fn append(&mut self, field: &str, value: &str) -> (r: Result<(), ErrorStack>)
        requires
            !field@.contains('\0'),
            encode_utf8(value@).len() as usize <= i32::MAX as usize,
        ensures
            r is Ok <==> name_entry_accepted(field@, value@),
            r is Ok ==> final(self).entries() == old(self).entries().push((field@, value@)),
    {
        self.inner.append_entry_by_text(field, value)
    }

    /// Relies on `X509NameBuilder::build`: the name with the appended entries.
    /// It re-reads the name's encoding and panics when OpenSSL refuses it,
    /// which a name within the size budget never meets.
    #[verifier::external_body]
    fn finish(self) -> (r: Name)
        requires
            entries_cost(self.entries()) <= NAME_BUDGET,
        ensures
            r.entries() == self.entries(),
    {
        Name { inner: self.inner.build(), entries: Ghost(self.entries@) }
    }
}

/// Whether a name entry can be handed to the name builder: a field without
/// NUL characters, and a field and value whose lengths a C `int` can count.
pub open spec fn view_fits(e: (Seq<char>, Seq<char>)) -> bool {
    &&& !e.0.contains('\0')
    &&& encode_utf8(e.0).len() as usize <= i32::MAX as usize
    &&& encode_utf8(e.1).len() as usize <= i32::MAX as usize
}

/// `view_fits` of an entry.
pub open spec fn entry_fits(e: NameEntry) -> bool {
    view_fits(entry_view(e))
}

/// Whether a list of entries can be built into a name: each entry fits and
/// the whole stays within the size budget.
pub open spec fn views_fit(v: Seq<(Seq<char>, Seq<char>)>) -> bool {
    &&& forall|i: int| 0 <= i < v.len() ==> view_fits(#[trigger] v[i])
    &&& entries_cost(v) <= NAME_BUDGET
}

/// The entries' values.
pub open spec fn entry_views(entries: Seq<NameEntry>) -> Seq<(Seq<char>, Seq<char>)> {
    entries.map_values(|e: NameEntry| entry_view(e))
}

/// Whether `s` holds a NUL character.
fn has_nul(s: &str) -> (r: bool)
    ensures
        r == s@.contains('\0'),
{
    let n = s.unicode_len();
    let mut i: usize = 0;
    while i < n
        invariant
            n == s@.len(),
            i <= n,
            forall|j: int| 0 <= j < i ==> s@[j] != '\0',
        decreases n - i,
    {
        if s.get_char(i) == '\0' {
            return true;
        }
        i = i + 1;
    }
    false
}

/// Decides whether `entries` can be built into a name.
pub fn name_fits(entries: &Vec<NameEntry>) -> (r: bool)
    ensures
        r == views_fit(entry_views(entries@)),
{
    let ghost v = entry_views(entries@);
    let mut cost: u64 = 0;
    let mut k: usize = 0;
    while k < entries.len()
        invariant
            k <= entries@.len(),
            v == entry_views(entries@),
            v.len() == entries@.len(),
            forall|j: int| 0 <= j < k ==> view_fits(#[trigger] v[j]),
            cost == entries_cost(v.subrange(0, k as int)),
            cost <= NAME_BUDGET,
        decreases entries.len() - k,
    {
        proof {
            assert(v.subrange(0, k + 1 as int).drop_last() =~= v.subrange(0, k as int));
            assert(v.subrange(0, k + 1 as int).last() == entry_view(entries@[k as int]));
        }
        let field = entries[k].field.as_str();
        let value = entries[k].value.as_str();
        if has_nul(field) || field.len() > i32::MAX as usize || value.len() > i32::MAX as usize {
            proof {
                assert(!view_fits(v[k as int]));
            }
            return false;
        }
        let step: u64 = field.len() as u64 + value.len() as u64 + 64;
        proof {
            assert(field.spec_bytes() == encode_utf8(entries@[k as int].field@));
            assert(value.spec_bytes() == encode_utf8(entries@[k as int].value@));
        }
        if step > NAME_BUDGET - cost {
            proof {
                lemma_cost_prefix(v, k as int + 1);
                assert(entries_cost(v.subrange(0, k + 1 as int)) == cost + step);
            }
            return false;
        }
        cost = cost + step;
        k = k + 1;
    }
    proof {
        assert(v.subrange(0, v.len() as int) =~= v);
    }
    true
}

/// Builds an X.509 name from its entries, in order. A list that does not
/// fit is refused with `InvalidRequest` before anything is built.
pub fn build_name(entries: &Vec<NameEntry>) -> (r: Result<Name, CertAgentError>)
    ensures
        (r matches Err(e) && e is InvalidRequest) <==> !views_fit(entry_views(entries@)),
        r matches Err(e) ==> e is OpenSsl || e is InvalidRequest,
        r is Ok <==> views_fit(entry_views(entries@)) && forall|i: int|
            0 <= i < entries@.len() ==> name_entry_accepted(
                (#[trigger] entries@[i]).field@,
                entries@[i].value@,
            ),
        r matches Ok(n) ==> n.entries() == entry_views(entries@),
{
    let ghost v = entry_views(entries@);
    if !name_fits(entries) {
        return Err(CertAgentError::InvalidRequest(String::from_str("name does not fit")));
    }
    let mut b = match NameBuilder::new() {
        Ok(b) => b,
        Err(e) => return Err(crypto_error(e)),
    };
    let mut i: usize = 0;
    while i < entries.len()
        invariant
            i <= entries@.len(),
            v == entry_views(entries@),
            v.len() == entries@.len(),
            views_fit(v),
            b.entries() == v.subrange(0, i as int),
            forall|j: int|
                0 <= j < i ==> name_entry_accepted(
                    (#[trigger] entries@[j]).field@,
                    entries@[j].value@,
                ),
        decreases entries.len() - i,
    {
        proof {
            assert(view_fits(v[i as int]));
            assert(v[i as int] == entry_view(entries@[i as int]));
        }
        match b.append(entries[i].field.as_str(), entries[i].value.as_str()) {
            Ok(()) => {},
            Err(e) => return Err(crypto_error(e)),
        }
        proof {
            assert(b.entries() =~= v.subrange(0, i + 1 as int));
        }
        i = i + 1;
    }
    proof {
        assert(v.subrange(0, v.len() as int) =~= v);
    }
    Ok(b.finish())
}

/// A finished X.509v3 extension with what it says.
pub struct Extension {
    inner: X509Extension,
    model: Ghost<ExtModel>,
}

impl Extension {
    /// What the extension says.
    pub closed spec fn model(&self) -> ExtModel {
        self.model@
    }
}

/// A subject-alternative-name extension under construction.
pub struct SanBuilder {
    inner: SubjectAlternativeName,
    entries: Ghost<Seq<(bool, Seq<char>)>>,
}

impl SanBuilder {
    /// The names added so far: `(is_ip, text)` in order.
    pub closed spec fn entries(&self) -> Seq<(bool, Seq<char>)> {
        self.entries@
    }

    /// Relies on `SubjectAlternativeName::new`: no names yet.
    #[verifier::external_body]
    fn new() -> (r: SanBuilder)
        ensures
            r.entries() == Seq::<(bool, Seq<char>)>::empty(),
    {
        SanBuilder { inner: SubjectAlternativeName::new(), entries: Ghost(Seq::empty()) }
    }

    /// Relies on `SubjectAlternativeName::dns`: adds a DNS name at the end.
    /// Building the extension later panics on a name longer than a C `int`
    /// can count, so such names are never added.
    #[verifier::external_body]
    fn add_dns(&mut self, name: &str)
        requires
            encode_utf8(name@).len() as usize <= i32::MAX as usize,
        ensures
            final(self).entries() == old(self).entries().push((false, name@)),
    {
        self.inner.dns(name);
    }

    /// Relies on `SubjectAlternativeName::ip`: adds an IP address at the end.
    #[verifier::external_body]
    fn add_ip(&mut self, addr: &str)
        ensures
            final(self).entries() == old(self).entries().push((true, addr@)),
    {
        self.inner.ip(addr);
    }

    /// Relies on `SubjectAlternativeName::build` in the builder's X.509v3
    /// context: the extension listing the names in the order added.
    #[verifier::external_body]
    fn build(&self, b: &CertBuilder) -> (r: Result<Extension, ErrorStack>)
        ensures
            r matches Ok(e) ==> e.model() == ExtModel::San(self.entries()),
    {
        let inner = self.inner.build(&b.inner.x509v3_context(None, None))?;
        Ok(Extension { inner, model: Ghost(ExtModel::San(self.entries@)) })
    }
}

/// A key-usage extension under construction.
pub struct KeyUsageBuilder {
    inner: KeyUsage,
    flags: Ghost<Seq<UsageFlag>>,
}

impl KeyUsageBuilder {
    /// The usages set so far, in the order set.
    pub closed spec fn flags(&self) -> Seq<UsageFlag> {
        self.flags@
    }

    /// Relies on `KeyUsage::new`: no usage set.
    #[verifier::external_body]
    fn new() -> (r: KeyUsageBuilder)
        ensures
            r.flags() == Seq::<UsageFlag>::empty(),
    {
        KeyUsageBuilder { inner: KeyUsage::new(), flags: Ghost(Seq::empty()) }
    }

    /// Relies on `KeyUsage::digital_signature`.
    #[verifier::external_body]
    fn digital_signature(&mut self)
        ensures
            final(self).flags() == old(self).flags().push(UsageFlag::DigitalSignature),
    {
        self.inner.digital_signature();
    }

    /// Relies on `KeyUsage::key_encipherment`.
    #[verifier::external_body]
    fn key_encipherment(&mut self)
        ensures
            final(self).flags() == old(self).flags().push(UsageFlag::KeyEncipherment),
    {
        self.inner.key_encipherment();
    }

    /// Relies on `KeyUsage::key_cert_sign`.
    #[verifier::external_body]
    fn key_cert_sign(&mut self)
        ensures
            final(self).flags() == old(self).flags().push(UsageFlag::KeyCertSign),
    {
        self.inner.key_cert_sign();
    }

    /// Relies on `KeyUsage::crl_sign`.
    #[verifier::external_body]
    fn crl_sign(&mut self)
        ensures
            final(self).flags() == old(self).flags().push(UsageFlag::CrlSign),
    {
        self.inner.crl_sign();
    }

    /// Relies on `KeyUsage::build`: the extension with the usages set.
    #[verifier::external_body]
    fn build(&self) -> (r: Result<Extension, ErrorStack>)
        ensures
            r matches Ok(e) ==> e.model() == ExtModel::KeyUsage(self.flags()),
    {
        let inner = self.inner.build()?;
        Ok(Extension { inner, model: Ghost(ExtModel::KeyUsage(self.flags@)) })
    }
}

/// An extended-key-usage extension under construction.
pub struct PurposeBuilder {
    inner: ExtendedKeyUsage,
    flags: Ghost<Seq<PurposeFlag>>,
}

impl PurposeBuilder {
    /// The purposes set so far, in the order set.
    pub closed spec fn flags(&self) -> Seq<PurposeFlag> {
        self.flags@
    }

    /// Relies on `ExtendedKeyUsage::new`: no purpose set.
    #[verifier::external_body]
    fn new() -> (r: PurposeBuilder)
        ensures
            r.flags() == Seq::<PurposeFlag>::empty(),
    {
        PurposeBuilder { inner: ExtendedKeyUsage::new(), flags: Ghost(Seq::empty()) }
    }

    /// Relies on `ExtendedKeyUsage::server_auth`.
    #[verifier::external_body]
    fn server_auth(&mut self)
        ensures
            final(self).flags() == old(self).flags().push(PurposeFlag::ServerAuth),
    {
        self.inner.server_auth();
    }

    /// Relies on `ExtendedKeyUsage::client_auth`.
    #[verifier::external_body]
    fn client_auth(&mut self)
        ensures
            final(self).flags() == old(self).flags().push(PurposeFlag::ClientAuth),
    {
        self.inner.client_auth();
    }

    /// Relies on `ExtendedKeyUsage::build`: the extension with the purposes set.
    #[verifier::external_body]
    fn build(&self) -> (r: Result<Extension, ErrorStack>)
        ensures
            r matches Ok(e) ==> e.model() == ExtModel::ExtendedKeyUsage(self.flags()),
    {
        let inner = self.inner.build()?;
        Ok(Extension { inner, model: Ghost(ExtModel::ExtendedKeyUsage(self.flags@)) })
    }
}

/// A basic-constraints extension under construction.
pub struct ConstraintsBuilder {
    inner: BasicConstraints,
    ca: Ghost<bool>,
    path_len: Ghost<Option<u32>>,
}

impl ConstraintsBuilder {
    /// Whether the CA flag is set.
    pub closed spec fn ca(&self) -> bool {
        self.ca@
    }

    /// The path-length constraint, if set.
    pub closed spec fn path_len(&self) -> Option<u32> {
        self.path_len@
    }

    /// Relies on `BasicConstraints::new`: not a CA, no path length.
    #[verifier::external_body]
    fn new() -> (r: ConstraintsBuilder)
        ensures
            !r.ca(),
            r.path_len() is None,
    {
        ConstraintsBuilder { inner: BasicConstraints::new(), ca: Ghost(false), path_len: Ghost(None) }
    }

    /// Relies on `BasicConstraints::ca`: sets the CA flag.
    #[verifier::external_body]
    fn set_ca(&mut self)
        ensures
            final(self).ca(),
            final(self).path_len() == old(self).path_len(),
    {
        self.inner.ca();
    }

    /// Relies on `BasicConstraints::pathlen`: sets the path-length constraint.
    #[verifier::external_body]
    fn set_path_len(&mut self, path_len: u32)
        ensures
            final(self).ca() == old(self).ca(),
            final(self).path_len() == Some(path_len),
    {
        self.inner.pathlen(path_len);
    }

    /// Relies on `BasicConstraints::build`: the extension as configured.
    #[verifier::external_body]
    fn build(&self) -> (r: Result<Extension, ErrorStack>)
        ensures
            r matches Ok(e) ==> e.model() == ExtModel::BasicConstraints(self.ca(), self.path_len()),
    {
        let inner = self.inner.build()?;
        Ok(Extension { inner, model: Ghost(ExtModel::BasicConstraints(self.ca@, self.path_len@)) })
    }
}

/// A message digest with its name.
pub struct Digest {
    inner: MessageDigest,
    name: Ghost<Seq<char>>,
}

impl Digest {
    /// The digest's name.
    pub closed spec fn name(&self) -> Seq<char> {
        self.name@
    }

    /// Relies on `MessageDigest::sha256`: the SHA-256 digest.
    #[verifier::external_body]
    fn sha256() -> (r: Digest)
        ensures
            r.name() == "sha256"@,
    {
        Digest { inner: MessageDigest::sha256(), name: Ghost("sha256"@) }
    }
}

/// A finished certificate. Its model is known for certificates built here,
/// not for certificates read from PEM.
pub struct Certificate {
    inner: X509,
    model: Ghost<Option<CertModel>>,
}

impl Certificate {
    /// What the certificate holds, when it was built here.
    pub closed spec fn known(&self) -> Option<CertModel> {
        self.model@
    }

    /// Relies on `X509::from_pem`: parses a PEM certificate. It asserts that
    /// the input fits a C `int` length. An encrypted PEM block may make
    /// OpenSSL prompt for a passphrase, so nothing is claimed of the outcome.
    #[verifier::external_body]
    fn from_pem(pem: &Vec<u8>) -> (r: Result<Certificate, ErrorStack>)
        requires
            pem@.len() <= i32::MAX,
        ensures
            r matches Ok(c) ==> c.known() is None,
    {
        let inner = X509::from_pem(pem)?;
        Ok(Certificate { inner, model: Ghost(None) })
    }

    /// Relies on `X509Ref::to_pem`: the certificate as PEM text (PEM is ASCII,
    /// so the lossy UTF-8 reading keeps every byte). Certificates of this type
    /// are signed ones, built here or read from PEM, which always encode.
    #[verifier::external_body]
    fn to_pem(&self) -> (r: Result<String, ErrorStack>)
        ensures
            r is Ok,
    {
        let pem = self.inner.to_pem()?;
        Ok(String::from_utf8_lossy(&pem).into_owned())
    }
}

/// A certificate under construction.
pub struct CertBuilder {
    inner: X509Builder,
    model: Ghost<CertModel>,
}

impl CertBuilder {
    /// What has been set so far.
    pub closed spec fn model(&self) -> CertModel {
        self.model@
    }

    /// Relies on `X509::builder`: nothing set yet.
    #[verifier::external_body]
    fn new() -> (r: Result<CertBuilder, ErrorStack>)
        ensures
            r matches Ok(b) ==> b.model() == empty_cert_model(),
    {
        let inner = X509::builder()?;
        Ok(CertBuilder { inner, model: Ghost(empty_cert_model()) })
    }

    /// Relies on `X509Builder::set_version` (2 stands for X.509 version 3).
    #[verifier::external_body]
    fn set_version(&mut self, version: i32) -> (r: Result<(), ErrorStack>)
        ensures
            r is Ok ==> final(self).model() == (CertModel { version: Some(version), ..old(self).model() }),
    {
        self.inner.set_version(version)
    }

    /// Relies on `X509Builder::set_subject_name`.
    #[verifier::external_body]
    fn set_subject(&mut self, name: &Name) -> (r: Result<(), ErrorStack>)
        ensures
            r is Ok ==> final(self).model() == (CertModel { subject: Some(name.entries()), ..old(self).model() }),
    {
        self.inner.set_subject_name(&name.inner)
    }

    /// Relies on `X509Builder::set_issuer_name`.
    #[verifier::external_body]
    fn set_issuer(&mut self, name: &Name) -> (r: Result<(), ErrorStack>)
        ensures
            r is Ok ==> final(self).model() == (CertModel { issuer: Some(name.entries()), ..old(self).model() }),
    {
        self.inner.set_issuer_name(&name.inner)
    }

    /// Relies on `X509Builder::set_issuer_name` with `X509Ref::subject_name`:
    /// the issuer becomes the subject of `issuer`.
    #[verifier::external_body]
    fn set_issuer_from(&mut self, issuer: &Certificate) -> (r: Result<(), ErrorStack>)
        ensures
            r is Ok ==> final(self).model() == (CertModel { issuer: final(self).model().issuer, ..old(self).model() }),
            r is Ok ==> (issuer.known() matches Some(m) ==> final(self).model().issuer == m.subject),
    {
        self.inner.set_issuer_name(issuer.inner.subject_name())
    }

    /// Relies on `X509Builder::set_serial_number`, with the serial converted by
    /// `BigNum::from_u32` and `BigNumRef::to_asn1_integer`.
    #[verifier::external_body]
    fn set_serial(&mut self, serial: u32) -> (r: Result<(), ErrorStack>)
        ensures
            r is Ok ==> final(self).model() == (CertModel { serial: Some(serial), ..old(self).model() }),
    {
        let n = BigNum::from_u32(serial)?;
        let n = n.to_asn1_integer()?;
        self.inner.set_serial_number(&n)
    }

    /// Relies on `X509Builder::set_not_before` with `Asn1Time::days_from_now`.
    #[verifier::external_body]
    fn set_not_before_days(&mut self, days: u32) -> (r: Result<(), ErrorStack>)
        ensures
            r is Ok ==> final(self).model() == (CertModel { not_before_days: Some(days), ..old(self).model() }),
    {
        let t = Asn1Time::days_from_now(days)?;
        self.inner.set_not_before(&t)
    }

    /// Relies on `X509Builder::set_not_after` with `Asn1Time::days_from_now`.
    #[verifier::external_body]
    fn set_not_after_days(&mut self, days: u32) -> (r: Result<(), ErrorStack>)
        ensures
            r is Ok ==> final(self).model() == (CertModel { not_after_days: Some(days), ..old(self).model() }),
    {
        let t = Asn1Time::days_from_now(days)?;
        self.inner.set_not_after(&t)
    }

    /// Relies on `X509Builder::append_extension`: adds the extension at the end.
    #[verifier::external_body]
    fn append_extension(&mut self, ext: Extension) -> (r: Result<(), ErrorStack>)
        ensures
            r is Ok ==> final(self).model() == (CertModel {
                extensions: old(self).model().extensions.push(ext.model()),
                ..old(self).model()
            }),
    {
        self.inner.append_extension(ext.inner)
    }

    /// Relies on `X509Builder::set_pubkey`: the certificate carries the
    /// public half of `key`.
    #[verifier::external_body]
    fn set_public_key(&mut self, key: &CertKey) -> (r: Result<(), ErrorStack>)
        ensures
            r is Ok ==> final(self).model() == (CertModel { public_key: Some(key.id()), ..old(self).model() }),
    {
        self.inner.set_pubkey(&key.inner)
    }

    /// Relies on `X509Builder::sign`: signs with `key` over `digest`.
    #[verifier::external_body]
    fn sign(&mut self, key: &CertKey, digest: &Digest) -> (r: Result<(), ErrorStack>)
        ensures
            r is Ok ==> final(self).model() == (CertModel {
                signature: Some((key.id(), digest.name())),
                ..old(self).model()
            }),
    {
        self.inner.sign(&key.inner, digest.inner)
    }

    /// Relies on `X509Builder::build`: the finished, signed certificate.
    #[verifier::external_body]
    fn finish(self) -> (r: Certificate)
        requires
            self.model().signature is Some,
        ensures
            r.known() == Some(self.model()),
    {
        Certificate { inner: self.inner.build(), model: Ghost(Some(self.model@)) }
    }
}

/// What a leaf for `req` holds: version 3, the request's subject (CN, then
/// the non-empty O, OU, C, ST, L), the given issuer, a non-zero serial drawn
/// from `seed`, validity from now for the requested days, the SAN list (DNS
/// names then IP addresses, in order), digitalSignature and keyEncipherment,
/// serverAuth and clientAuth, the public half of `leaf_key`, and a SHA-256
/// signature by `ca_key`.
pub open spec fn leaf_model(
    req: CertificateRequest,
    seed: u32,
    issuer: Option<Seq<(Seq<char>, Seq<char>)>>,
    ca_key: int,
    leaf_key: int,
) -> CertModel {
    CertModel {
        version: Some(2),
        subject: Some(subject_of(req)),
        issuer,
        serial: Some(if seed == 0 { 1 } else { seed }),
        not_before_days: Some(0),
        not_after_days: Some(req.validity_days),
        extensions: seq![
            ExtModel::San(sans_of(req.dns_names@, req.ip_addresses@)),
            ExtModel::KeyUsage(seq![UsageFlag::DigitalSignature, UsageFlag::KeyEncipherment]),
            ExtModel::ExtendedKeyUsage(seq![PurposeFlag::ServerAuth, PurposeFlag::ClientAuth]),
        ],
        public_key: Some(leaf_key),
        signature: Some((ca_key, "sha256"@)),
    }
}

/// What the self-signed CA holds: version 3, subject and issuer
/// `CN=Cert Agent CA, O=Cert Agent, C=US`, serial 1, validity from now for
/// 3650 days, CA=true with path length 0, keyCertSign and cRLSign, the public
/// half of `key`, and a SHA-256 signature by `key` itself.
pub open spec fn ca_model(key: int) -> CertModel {
    CertModel {
        version: Some(2),
        subject: Some(ca_subject()),
        issuer: Some(ca_subject()),
        serial: Some(1),
        not_before_days: Some(0),
        not_after_days: Some(3650),
        extensions: seq![
            ExtModel::BasicConstraints(true, Some(0)),
            ExtModel::KeyUsage(seq![UsageFlag::KeyCertSign, UsageFlag::CrlSign]),
        ],
        public_key: Some(key),
        signature: Some((key, "sha256"@)),
    }
}

/// Whether every DNS name's length fits a C `int`.
pub open spec fn dns_names_fit(names: Seq<String>) -> bool {
    forall|i: int| 0 <= i < names.len() ==> encode_utf8((#[trigger] names[i])@).len() as usize <= i32::MAX as usize
}

/// Whether a request can be signed as a leaf: its subject fits a name and
/// its DNS names fit.
pub open spec fn request_fits(req: CertificateRequest) -> bool {
    views_fit(subject_of(req)) && dns_names_fit(req.dns_names@)
}

/// Decides `dns_names_fit`.
fn dns_fit(names: &Vec<String>) -> (r: bool)
    ensures
        r == dns_names_fit(names@),
{
    let mut i: usize = 0;
    while i < names.len()
        invariant
            i <= names@.len(),
            forall|j: int| 0 <= j < i ==> encode_utf8((#[trigger] names@[j])@).len() as usize <= i32::MAX as usize,
        decreases names.len() - i,
    {
        if names[i].as_str().len() > i32::MAX as usize {
            return false;
        }
        i = i + 1;
    }
    true
}

/// The CA certificate and its private key.
pub struct CaMaterial {
    cert: Certificate,
    key: CertKey,
}

/// A signed leaf certificate and its private key, as PEM, with what the
/// certificate holds.
pub struct LeafMaterial {
    pub certificate_pem: String,
    pub private_key_pem: String,
    pub model: Ghost<CertModel>,
}

impl LeafMaterial {
    /// What the signed certificate holds.
    pub open spec fn model(&self) -> CertModel {
        self.model@
    }
}

impl CaMaterial {
    /// What the CA certificate holds, when it was built here.
    pub closed spec fn cert_known(&self) -> Option<CertModel> {
        self.cert.known()
    }

    /// The identity of the CA key.
    pub closed spec fn key_id(&self) -> int {
        self.key.id()
    }

    /// Parses the CA pair from its PEM files' contents; contents too large to
    /// parse are refused with `InvalidRequest`, a parse failure is an OpenSSL
    /// error.
    pub fn load_ca_credentials(cert_pem: &Vec<u8>, key_pem: &Vec<u8>) -> (r: Result<CaMaterial, CertAgentError>)
        ensures
            (cert_pem@.len() > i32::MAX || key_pem@.len() > i32::MAX) <==> (r matches Err(e)
                && e is InvalidRequest),
            r matches Err(e) ==> e is OpenSsl || e is InvalidRequest,
            cert_pem@.len() <= i32::MAX && key_pem@.len() <= i32::MAX && !pem_private_key_parses(key_pem@)
                ==> r is Err,
            r is Ok ==> pem_private_key_parses(key_pem@),
    {
        if cert_pem.len() > i32::MAX as usize || key_pem.len() > i32::MAX as usize {
            return Err(CertAgentError::InvalidRequest(String::from_str("credentials too large")));
        }
        let cert = openssl_result(Certificate::from_pem(cert_pem))?;
        let key = openssl_result(CertKey::from_pem(key_pem))?;
        Ok(CaMaterial { cert, key })
    }

    /// Bootstraps a self-signed CA with a fresh RSA key of `key_size` bits;
    /// the certificate holds `ca_model` of that key.
    pub fn generate_ca_certificate(key_size: u32) -> (r: Result<CaMaterial, CertAgentError>)
        ensures
            r matches Err(e) ==> e is OpenSsl || e is InvalidRequest,
            r matches Ok(ca) ==> ca.cert_known() == Some(ca_model(ca.key_id())),
    {
        let key = openssl_result(CertKey::generate_rsa(key_size))?;
        let name = build_name(&ca_subject_entries())?;
        let mut b = openssl_result(CertBuilder::new())?;
        openssl_result(b.set_version(2))?;
        openssl_result(b.set_subject(&name))?;
        openssl_result(b.set_issuer(&name))?;
        openssl_result(b.set_serial(CA_SERIAL))?;
        openssl_result(b.set_not_before_days(0))?;
        openssl_result(b.set_not_after_days(CA_VALIDITY_DAYS))?;
        assert(b.model().extensions =~= Seq::<ExtModel>::empty());
        let mut bc = ConstraintsBuilder::new();
        bc.set_ca();
        bc.set_path_len(CA_PATH_LEN);
        let constraints = openssl_result(bc.build())?;
        openssl_result(b.append_extension(constraints))?;
        let mut ku = KeyUsageBuilder::new();
        ku.key_cert_sign();
        ku.crl_sign();
        assert(ku.flags() =~= seq![UsageFlag::KeyCertSign, UsageFlag::CrlSign]);
        let usage = openssl_result(ku.build())?;
        openssl_result(b.append_extension(usage))?;
        openssl_result(b.set_public_key(&key))?;
        let digest = Digest::sha256();
        openssl_result(b.sign(&key, &digest))?;
        proof {
            assert(b.model().extensions =~= ca_model(key.id()).extensions);
            assert(b.model() =~= ca_model(key.id()));
        }
        let cert = b.finish();
        Ok(CaMaterial { cert, key })
    }

    /// The CA certificate as PEM.
    pub fn certificate_pem(&self) -> (r: Result<String, CertAgentError>)
        ensures
            r is Ok,
    {
        openssl_result(self.cert.to_pem())
    }

    /// The CA private key as PKCS#8 PEM.
    pub fn private_key_pem(&self) -> (r: Result<String, CertAgentError>)
        ensures
            r is Ok,
    {
        openssl_result(self.key.to_pem())
    }

    /// Builds and signs a leaf for `request` with a fresh RSA key of
    /// `key_size` bits and the serial drawn from `serial_seed`. A request
    /// that does not fit (a subject entry or DNS name too long, or a subject
    /// over the size budget) is refused with `InvalidRequest` before anything
    /// is generated. The certificate holds `leaf_model` with the CA's subject
    /// as issuer (when the CA was built here) and the CA key as signer.
    pub fn sign_leaf(&self, request: &CertificateRequest, key_size: u32, serial_seed: u32) -> (r: Result<
        LeafMaterial,
        CertAgentError,
    >)
        ensures
            (r matches Err(e) && e is InvalidRequest) <==> !request_fits(*request),
            r matches Err(e) ==> e is OpenSsl || e is InvalidRequest,
            r matches Ok(m) ==> exists|issuer: Option<Seq<(Seq<char>, Seq<char>)>>, k: int|
                #[trigger] leaf_model(*request, serial_seed, issuer, self.key_id(), k) == m.model()
                    && (self.cert_known() matches Some(c) ==> issuer == c.subject),
    {
        let subject = subject_entries(request);
        if !name_fits(&subject) || !dns_fit(&request.dns_names) {
            return Err(CertAgentError::InvalidRequest(String::from_str("request does not fit")));
        }
        let key = openssl_result(CertKey::generate_rsa(key_size))?;
        let name = build_name(&subject)?;
        let mut b = openssl_result(CertBuilder::new())?;
        openssl_result(b.set_version(2))?;
        openssl_result(b.set_subject(&name))?;
        openssl_result(b.set_issuer_from(&self.cert))?;
        let ghost issuer = b.model().issuer;
        openssl_result(b.set_serial(leaf_serial(serial_seed)))?;
        openssl_result(b.set_not_before_days(0))?;
        openssl_result(b.set_not_after_days(request.validity_days))?;
        assert(b.model().extensions =~= Seq::<ExtModel>::empty());
        let sans = san_entries(&request.dns_names, &request.ip_addresses);
        let ghost sv = sans@.map_values(|e: SanEntry| san_view(e));
        let mut san = SanBuilder::new();
        let mut i: usize = 0;
        while i < sans.len()
            invariant
                i <= sans@.len(),
                sv == sans@.map_values(|e: SanEntry| san_view(e)),
                sv == sans_of(request.dns_names@, request.ip_addresses@),
                dns_names_fit(request.dns_names@),
                san.entries() == sv.subrange(0, i as int),
            decreases sans.len() - i,
        {
            match &sans[i] {
                SanEntry::Dns(d) => {
                    proof {
                        assert(sv[i as int] == (false, d@));
                        lemma_dns_in_sans(request.dns_names@, request.ip_addresses@, i as int);
                    }
                    san.add_dns(d.as_str());
                },
                SanEntry::Ip(a) => {
                    proof {
                        assert(sv[i as int] == (true, a@));
                    }
                    san.add_ip(a.as_str());
                },
            }
            proof {
                assert(san.entries() =~= sv.subrange(0, i + 1 as int));
            }
            i = i + 1;
        }
        proof {
            assert(sv.subrange(0, sv.len() as int) =~= sv);
        }
        let san_ext = openssl_result(san.build(&b))?;
        openssl_result(b.append_extension(san_ext))?;
        let mut ku = KeyUsageBuilder::new();
        ku.digital_signature();
        ku.key_encipherment();
        assert(ku.flags() =~= seq![UsageFlag::DigitalSignature, UsageFlag::KeyEncipherment]);
        let usage = openssl_result(ku.build())?;
        openssl_result(b.append_extension(usage))?;
        let mut eku = PurposeBuilder::new();
        eku.server_auth();
        eku.client_auth();
        assert(eku.flags() =~= seq![PurposeFlag::ServerAuth, PurposeFlag::ClientAuth]);
        let extended = openssl_result(eku.build())?;
        openssl_result(b.append_extension(extended))?;
        openssl_result(b.set_public_key(&key))?;
        let digest = Digest::sha256();
        openssl_result(b.sign(&self.key, &digest))?;
        proof {
            let lm = leaf_model(*request, serial_seed, issuer, self.key.id(), key.id());
            assert(b.model().extensions =~= lm.extensions);
            assert(b.model() =~= lm);
        }
        let ghost model = b.model();
        proof {
            assert(leaf_model(*request, serial_seed, issuer, self.key_id(), key.id()) == model);
        }
        let cert = b.finish();
        let certificate_pem = openssl_result(cert.to_pem())?;
        let private_key_pem = openssl_result(key.to_pem())?;
        Ok(LeafMaterial { certificate_pem, private_key_pem, model: Ghost(model) })
    }

    /// Signs a leaf with a serial drawn from a fresh random value; see
    /// `sign_leaf`.
    pub fn issue_leaf(&self, request: &CertificateRequest, key_size: u32) -> (r: Result<
        LeafMaterial,
        CertAgentError,
    >)
        ensures
            (r matches Err(e) && e is InvalidRequest) <==> !request_fits(*request),
            r matches Err(e) ==> e is OpenSsl || e is InvalidRequest,
            r matches Ok(m) ==> exists|seed: u32, issuer: Option<Seq<(Seq<char>, Seq<char>)>>, k: int|
                #[trigger] leaf_model(*request, seed, issuer, self.key_id(), k) == m.model()
                    && (self.cert_known() matches Some(c) ==> issuer == c.subject),
    {
        let seed = random_serial_seed();
        self.sign_leaf(request, key_size, seed)
    }
}

/// Every DNS name of a SAN list comes from the request's DNS names.
proof fn lemma_dns_in_sans(dns: Seq<String>, ips: Seq<String>, i: int)
    requires
        0 <= i < sans_of(dns, ips).len(),
        sans_of(dns, ips)[i].0 == false,
    ensures
        i < dns.len(),
        sans_of(dns, ips)[i].1 == dns[i]@,
{
    let d = dns.map_values(|s: String| (false, s@));
    let p = ips.map_values(|s: String| (true, s@));
    assert(sans_of(dns, ips) == d + p);
    if i >= dns.len() {
        assert((d + p)[i] == p[i - dns.len()]);
    } else {
        assert((d + p)[i] == d[i]);
    }
}

/// Entry costs are never negative.
proof fn lemma_cost_nonneg(s: Seq<(Seq<char>, Seq<char>)>)
    ensures
        entries_cost(s) >= 0,
    decreases s.len(),
{
    if s.len() > 0 {
        lemma_cost_nonneg(s.drop_last());
    }
}

/// The cost of a prefix is at most the cost of the whole.
proof fn lemma_cost_prefix(s: Seq<(Seq<char>, Seq<char>)>, k: int)
    requires
        0 <= k <= s.len(),
    ensures
        entries_cost(s.subrange(0, k)) <= entries_cost(s),
    decreases s.len() - k,
{
    if k < s.len() {
        lemma_cost_prefix(s, k + 1);
        assert(s.subrange(0, k + 1).drop_last() =~= s.subrange(0, k));
    } else {
        assert(s.subrange(0, k) =~= s);
    }
}

} // verus!
