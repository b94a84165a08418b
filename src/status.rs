use vstd::prelude::*;
use vstd::string::StringExecFns;

verus! {

/// Lifecycle status of a certificate record.
#[derive(Clone, Copy, Debug, PartialEq, Eq, Structural)]
pub enum CertStatus {
    Pending,
    Active,
    Expired,
    Revoked,
}

/// The textual form of a status, as stored and as published.
pub open spec fn status_text(s: CertStatus) -> Seq<char> {
    match s {
        CertStatus::Pending => "pending"@,
        CertStatus::Active => "active"@,
        CertStatus::Expired => "expired"@,
        CertStatus::Revoked => "revoked"@,
    }
}

/// The status whose textual form is `t`, if any.
pub open spec fn status_of_text(t: Seq<char>) -> Option<CertStatus> {
    if t == "pending"@ {
        Some(CertStatus::Pending)
    } else if t == "active"@ {
        Some(CertStatus::Active)
    } else if t == "expired"@ {
        Some(CertStatus::Expired)
    } else if t == "revoked"@ {
        Some(CertStatus::Revoked)
    } else {
        None
    }
}

/// Whether the lifecycle allows a record to move from `from` to `to`.
/// Staying put is always allowed; otherwise only `pending → active`,
/// `active → revoked` and `active → expired` exist.
pub open spec fn transition_allowed(from: CertStatus, to: CertStatus) -> bool {
    from == to || (from == CertStatus::Pending && to == CertStatus::Active) || (from
        == CertStatus::Active && (to == CertStatus::Revoked || to == CertStatus::Expired))
}

/// Terminal-or-past states never come back to `active`.
pub open spec fn is_retired(s: CertStatus) -> bool {
    s == CertStatus::Revoked || s == CertStatus::Expired
}

/// Spec code of a status in the RPC schema.
pub open spec fn proto_code(s: Option<CertStatus>) -> i32 {
    match s {
        None => 0,
        Some(CertStatus::Active) => 1,
        Some(CertStatus::Expired) => 2,
        Some(CertStatus::Revoked) => 3,
        Some(CertStatus::Pending) => 4,
    }
}

/// Exec string equality on `str`, through `String`'s specified `==`.
pub fn str_eq(a: &str, b: &str) -> (r: bool)
    ensures
        r == (a@ == b@),
{
    let x = String::from_str(a);
    let y = String::from_str(b);
    x == y
}

impl CertStatus {
    /// The textual form of the status.
    pub fn as_str(&self) -> (r: &'static str)
        ensures
            r@ == status_text(*self),
    {
        match self {
            CertStatus::Pending => "pending",
            CertStatus::Active => "active",
            CertStatus::Expired => "expired",
            CertStatus::Revoked => "revoked",
        }
    }

    /// The textual form of the status as an owned string.
    pub fn to_text(&self) -> (r: String)
        ensures
            r@ == status_text(*self),
    {
        String::from_str(self.as_str())
    }

    /// Parses a textual status; unknown text gives `None`.
    pub fn parse(t: &str) -> (r: Option<CertStatus>)
        ensures
            r == status_of_text(t@),
    {
        proof {
            reveal_strlit("pending");
            reveal_strlit("active");
            reveal_strlit("expired");
            reveal_strlit("revoked");
        }
        if str_eq(t, "pending") {
            Some(CertStatus::Pending)
        } else if str_eq(t, "active") {
            Some(CertStatus::Active)
        } else if str_eq(t, "expired") {
            Some(CertStatus::Expired)
        } else if str_eq(t, "revoked") {
            Some(CertStatus::Revoked)
        } else {
            None
        }
    }
}

/// Every status parses back from its own text.
pub proof fn lemma_status_text_round_trip(s: CertStatus)
    ensures
        status_of_text(status_text(s)) == Some(s),
{
    reveal_strlit("pending");
    reveal_strlit("active");
    reveal_strlit("expired");
    reveal_strlit("revoked");
    assert("pending"@[0] != "active"@[0]);
    assert("pending"@[0] != "expired"@[0]);
    assert("pending"@[0] != "revoked"@[0]);
    assert("active"@[0] != "expired"@[0]);
    assert("active"@[0] != "revoked"@[0]);
    assert("expired"@[0] != "revoked"@[0]);
}

/// Maps a textual status to its RPC code; unknown text maps to the
/// unspecified code.
pub fn cert_status_to_proto(status: &str) -> (r: i32)
    ensures
        r == proto_code(status_of_text(status@)),
{
    match CertStatus::parse(status) {
        Some(CertStatus::Active) => 1,
        Some(CertStatus::Expired) => 2,
        Some(CertStatus::Revoked) => 3,
        Some(CertStatus::Pending) => 4,
        None => 0,
    }
}

/// Spec text for an RPC status code; unknown codes read as `unspecified`.
pub open spec fn proto_text(code: i32) -> Seq<char> {
    if code == 1 {
        "active"@
    } else if code == 2 {
        "expired"@
    } else if code == 3 {
        "revoked"@
    } else if code == 4 {
        "pending"@
    } else {
        "unspecified"@
    }
}

/// Maps an RPC status code back to its text.
pub fn proto_to_cert_status(status: &i32) -> (r: String)
    ensures
        r@ == proto_text(*status),
{
    let t: &str = if *status == 1 {
        "active"
    } else if *status == 2 {
        "expired"
    } else if *status == 3 {
        "revoked"
    } else if *status == 4 {
        "pending"
    } else {
        "unspecified"
    };
    String::from_str(t)
}

} // verus!
