use vstd::prelude::*;
use vstd::string::StringExecFns;

use crate::error::{error_detail, error_label, CertAgentError};
use crate::record::CertificateRecord;
use crate::status::{cert_status_to_proto, proto_text, proto_to_cert_status, str_eq};

verus! {

/// The validity that a renewal request asks for: a positive value, or the
/// configured default (`None`) for zero and below.
pub fn renewal_validity(validity_days: i32) -> (r: Option<u32>)
    ensures
        validity_days > 0 ==> r == Some(validity_days as u32),
        validity_days <= 0 ==> r is None,
{
    if validity_days > 0 {
        Some(validity_days as u32)
    } else {
        None
    }
}

/// The status filter of a listing request: none for the unspecified code,
/// else the text of the code.
pub fn list_status_filter(status: i32) -> (r: Option<String>)
    ensures
        status == 0 ==> r is None,
        status != 0 ==> (r matches Some(t) && t@ == proto_text(status)),
{
    proof {
        reveal_strlit("");
        reveal_strlit("pending");
        reveal_strlit("active");
        reveal_strlit("expired");
        reveal_strlit("revoked");
    }
    let unspecified = cert_status_to_proto("");
    proof {
        assert(""@.len() == 0);
        assert(""@ != "pending"@ && ""@ != "active"@ && ""@ != "expired"@ && ""@ != "revoked"@);
        assert(crate::status::status_of_text(""@) is None);
    }
    if status == unspecified {
        None
    } else {
        Some(proto_to_cert_status(&status))
    }
}

/// Reply to a revocation: it never fails the call; an error is reported in
/// the message with `success` false.
pub struct RevokeReply {
    pub success: bool,
    pub message: String,
}

/// Builds the reply to a revocation from its outcome.
pub fn revoke_reply(outcome: &Result<(), CertAgentError>) -> (r: RevokeReply)
    ensures
        r.success == outcome is Ok,
        outcome is Ok ==> r.message@ == "Certificate revoked successfully"@,
        outcome matches Err(e) ==> r.message@ == "Failed to revoke certificate: "@ + error_label(*e)
            + error_detail(*e),
{
    match outcome {
        Ok(()) => RevokeReply {
            success: true,
            message: String::from_str("Certificate revoked successfully"),
        },
        Err(e) => {
            let m = String::from_str("Failed to revoke certificate: ").concat(e.message().as_str());
            proof {
                assert(m@ =~= "Failed to revoke certificate: "@ + error_label(*e) + error_detail(*e));
            }
            RevokeReply { success: false, message: m }
        },
    }
}

/// The record a status request reports: the stored one, or
/// `CertificateNotFound` carrying the id when there is none.
pub fn status_reply(found: Option<CertificateRecord>, id: &str) -> (r: Result<
    CertificateRecord,
    CertAgentError,
>)
    ensures
        found matches Some(x) ==> (r matches Ok(y) && y == x),
        found is None ==> (r matches Err(CertAgentError::CertificateNotFound(s)) && s@ == id@),
{
    match found {
        Some(x) => Ok(x),
        None => Err(CertAgentError::CertificateNotFound(String::from_str(id))),
    }
}

/// Whether a watch over `ids` reports on `id`: an empty list watches all.
pub fn is_watched(ids: &Vec<String>, id: &str) -> (r: bool)
    ensures
        r == (ids@.len() == 0 || exists|i: int| 0 <= i < ids@.len() && #[trigger] ids@[i]@ == id@),
{
    if ids.len() == 0 {
        return true;
    }
    let mut i: usize = 0;
    while i < ids.len()
        invariant
            i <= ids@.len(),
            forall|j: int| 0 <= j < i ==> #[trigger] ids@[j]@ != id@,
        decreases ids.len() - i,
    {
        if str_eq(ids[i].as_str(), id) {
            return true;
        }
        i = i + 1;
    }
    false
}

} // verus!
