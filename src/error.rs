use vstd::prelude::*;

verus! {

/// Why an operation was refused. A refused operation leaves every record
/// as it was.
#[derive(Clone, Copy, Debug, PartialEq, Eq, Structural)]
pub enum CertiChainError {
    InstitutionNameTooLong,
    EmptyInstitutionName,
    StudentNameTooLong,
    CourseNameTooLong,
    CertificateHashTooLong,
    CertificateIdTooLong,
    EmptyField,
    IssuerNotVerified,
    IssuerRevoked,
    UnauthorizedAdmin,
    UnauthorizedIssuer,
    CertificateAlreadyRevoked,
    Overflow,
    /// The admin singleton exists already.
    AlreadyInitialized,
    /// The caller has an issuer record already.
    AlreadyRegistered,
    /// The issuer has a certificate with this id already.
    AlreadyExists,
    /// No record is stored at the given address.
    AccountNotFound,
    /// The host ledger derives no address from these inputs.
    AddressUnavailable,
}

impl CertiChainError {
    /// A sentence that describes the error.
    pub fn message(&self) -> &'static str {
        match self {
            CertiChainError::InstitutionNameTooLong => "Institution name exceeds maximum length of 64 characters",
            CertiChainError::EmptyInstitutionName => "Institution name cannot be empty",
            CertiChainError::StudentNameTooLong => "Student name exceeds maximum length of 64 characters",
            CertiChainError::CourseNameTooLong => "Course name exceeds maximum length of 128 characters",
            CertiChainError::CertificateHashTooLong => "Certificate hash exceeds maximum length of 64 characters",
            CertiChainError::CertificateIdTooLong => "Certificate ID exceeds maximum length of 64 characters",
            CertiChainError::EmptyField => "Required field cannot be empty",
            CertiChainError::IssuerNotVerified => "Issuer is not verified by admin",
            CertiChainError::IssuerRevoked => "Issuer has been revoked",
            CertiChainError::UnauthorizedAdmin => "Unauthorized: not the admin authority",
            CertiChainError::UnauthorizedIssuer => "Unauthorized: not the issuer authority",
            CertiChainError::CertificateAlreadyRevoked => "Certificate has already been revoked",
            CertiChainError::Overflow => "Arithmetic overflow",
            CertiChainError::AlreadyInitialized => "Admin account is already initialized",
            CertiChainError::AlreadyRegistered => "Issuer is already registered",
            CertiChainError::AlreadyExists => "Certificate already exists",
            CertiChainError::AccountNotFound => "No account at this address",
            CertiChainError::AddressUnavailable => "No program address for these seeds",
        }
    }
}

} // verus!
