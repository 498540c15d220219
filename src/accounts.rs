use crate::identity::Identity;
use vstd::prelude::*;
use vstd::utf8::encode_utf8;

verus! {

/// Longest institution name, in UTF-8 bytes.
pub const MAX_INSTITUTION_NAME_LEN: usize = 64;
/// Longest student name, in UTF-8 bytes.
pub const MAX_STUDENT_NAME_LEN: usize = 64;
/// Longest course or credential name, in UTF-8 bytes.
pub const MAX_COURSE_NAME_LEN: usize = 128;
/// Longest certificate hash (a hex SHA-256 digest has 64), in UTF-8 bytes.
pub const MAX_CERTIFICATE_HASH_LEN: usize = 64;
/// Longest certificate id, in UTF-8 bytes.
pub const MAX_CERTIFICATE_ID_LEN: usize = 64;
/// What one issued certificate adds to its issuer's reputation.
pub const REPUTATION_PER_CERTIFICATE: u64 = 10;

/// The length of a text in UTF-8 bytes.
pub open spec fn byte_len(s: Seq<char>) -> nat {
    encode_utf8(s).len()
}

pub fn text_byte_len(s: &String) -> (r: usize)
    ensures
        r == byte_len(s@),
{
    s.as_str().as_bytes().len()
}

/// The admin singleton: the one identity that decides which issuers are trusted.
pub struct AdminAccount {
    pub authority: Identity,
    /// When the admin was initialized (unix seconds).
    pub created_at: i64,
}

/// Where an issuer stands. Revocation is terminal, and a revoked issuer is
/// never verified.
#[derive(Clone, Copy, Debug, PartialEq, Eq, Structural)]
pub enum IssuerStatus {
    Unverified,
    Verified,
    Revoked,
}

/// An institution's record.
pub struct IssuerAccount {
    /// The identity that registered, and owns, this record.
    pub authority: Identity,
    pub institution_name: String,
    pub status: IssuerStatus,
    /// How many certificates this issuer has issued.
    pub certificates_issued: u64,
    /// Grows by `REPUTATION_PER_CERTIFICATE` per certificate issued.
    pub reputation_score: u64,
    /// When the issuer registered (unix seconds).
    pub registered_at: i64,
}

impl IssuerAccount {
    /// Whether the admin has verified this issuer (and not revoked it).
    pub fn is_verified(&self) -> (r: bool)
        ensures
            r == (self.status == IssuerStatus::Verified),
    {
        self.status == IssuerStatus::Verified
    }

    /// Whether the admin has revoked this issuer.
    pub fn is_revoked(&self) -> (r: bool)
        ensures
            r == (self.status == IssuerStatus::Revoked),
    {
        self.status == IssuerStatus::Revoked
    }
}

/// A credential: immutable but for its revocation flag.
pub struct CertificateAccount {
    /// The identity of the issuer that created it.
    pub issuer: Identity,
    pub student_name: String,
    pub course_name: String,
    /// A hex digest of the full credential data.
    pub certificate_hash: String,
    /// The issuer's own unique token for it; part of its address.
    pub certificate_id: String,
    /// When it was issued (unix seconds).
    pub issued_at: i64,
    pub is_revoked: bool,
}

} // verus!
