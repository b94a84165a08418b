use vstd::prelude::*;
use vstd::string::StringExecFns;

verus! {

/// Failure kinds of the certificate engine. Each carries a human-readable
/// detail; the transport and crypto layers map their own errors onto these.
#[derive(Debug)]
pub enum CertAgentError {
    Certificate(String),
    Redis(String),
    Grpc(String),
    Io(String),
    Serialization(String),
    Config(String),
    OpenSsl(String),
    Utf8(String),
    InvalidCertificateId(String),
    CertificateNotFound(String),
    CertificateExpired(String),
    CertificateAlreadyExists(String),
    InvalidRequest(String),
    Internal(String),
}

/// The label that introduces each kind in a message.
pub open spec fn error_label(e: CertAgentError) -> Seq<char> {
    match e {
        CertAgentError::Certificate(_) => "Certificate error: "@,
        CertAgentError::Redis(_) => "Redis error: "@,
        CertAgentError::Grpc(_) => "gRPC error: "@,
        CertAgentError::Io(_) => "IO error: "@,
        CertAgentError::Serialization(_) => "Serialization error: "@,
        CertAgentError::Config(_) => "Configuration error: "@,
        CertAgentError::OpenSsl(_) => "OpenSSL error: "@,
        CertAgentError::Utf8(_) => "UTF-8 error: "@,
        CertAgentError::InvalidCertificateId(_) => "Invalid certificate ID: "@,
        CertAgentError::CertificateNotFound(_) => "Certificate not found: "@,
        CertAgentError::CertificateExpired(_) => "Certificate expired: "@,
        CertAgentError::CertificateAlreadyExists(_) => "Certificate already exists: "@,
        CertAgentError::InvalidRequest(_) => "Invalid request: "@,
        CertAgentError::Internal(_) => "Internal error: "@,
    }
}

/// The detail that an error carries.
pub open spec fn error_detail(e: CertAgentError) -> Seq<char> {
    match e {
        CertAgentError::Certificate(s) => s@,
        CertAgentError::Redis(s) => s@,
        CertAgentError::Grpc(s) => s@,
        CertAgentError::Io(s) => s@,
        CertAgentError::Serialization(s) => s@,
        CertAgentError::Config(s) => s@,
        CertAgentError::OpenSsl(s) => s@,
        CertAgentError::Utf8(s) => s@,
        CertAgentError::InvalidCertificateId(s) => s@,
        CertAgentError::CertificateNotFound(s) => s@,
        CertAgentError::CertificateExpired(s) => s@,
        CertAgentError::CertificateAlreadyExists(s) => s@,
        CertAgentError::InvalidRequest(s) => s@,
        CertAgentError::Internal(s) => s@,
    }
}

impl CertAgentError {
    /// The message of the error: its kind's label, then its detail.
    pub fn message(&self) -> (r: String)
        ensures
            r@ == error_label(*self) + error_detail(*self),
    {
        let (label, detail): (&str, &String) = match self {
            CertAgentError::Certificate(s) => ("Certificate error: ", s),
            CertAgentError::Redis(s) => ("Redis error: ", s),
            CertAgentError::Grpc(s) => ("gRPC error: ", s),
            CertAgentError::Io(s) => ("IO error: ", s),
            CertAgentError::Serialization(s) => ("Serialization error: ", s),
            CertAgentError::Config(s) => ("Configuration error: ", s),
            CertAgentError::OpenSsl(s) => ("OpenSSL error: ", s),
            CertAgentError::Utf8(s) => ("UTF-8 error: ", s),
            CertAgentError::InvalidCertificateId(s) => ("Invalid certificate ID: ", s),
            CertAgentError::CertificateNotFound(s) => ("Certificate not found: ", s),
            CertAgentError::CertificateExpired(s) => ("Certificate expired: ", s),
            CertAgentError::CertificateAlreadyExists(s) => ("Certificate already exists: ", s),
            CertAgentError::InvalidRequest(s) => ("Invalid request: ", s),
            CertAgentError::Internal(s) => ("Internal error: ", s),
        };
        String::from_str(label).concat(detail.as_str())
    }
}

} // verus!
