//! A certificate issuance authority: an admin singleton that decides which
//! institutions are trusted, a registry of issuers, and a ledger of
//! certificates that only verified issuers may create and only their issuer
//! may revoke. Every record lives at an address derived deterministically
//! from its kind and its owner's identity.

pub mod accounts;
pub mod address;
pub mod error;
pub mod identity;
pub mod laws;
pub mod ledger;
pub mod table;

pub use accounts::{AdminAccount, CertificateAccount, IssuerAccount, IssuerStatus};
pub use error::CertiChainError;
pub use identity::Identity;
pub use ledger::{
    initialize_admin, issue_certificate, register_issuer, revoke_certificate, revoke_issuer,
    verify_issuer, IssueCertificate, InitializeAdmin, Ledger, ManageIssuer, RegisterIssuer,
    RevokeCertificate,
};
