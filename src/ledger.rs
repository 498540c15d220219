use crate::accounts::{
    byte_len, text_byte_len, AdminAccount, CertificateAccount, IssuerAccount, IssuerStatus,
    MAX_CERTIFICATE_HASH_LEN, MAX_CERTIFICATE_ID_LEN, MAX_COURSE_NAME_LEN,
    MAX_INSTITUTION_NAME_LEN, MAX_STUDENT_NAME_LEN, REPUTATION_PER_CERTIFICATE,
};
use crate::address::{certificate_address, certificate_address_of, issuer_address, issuer_address_of};
use crate::error::CertiChainError;
use crate::identity::Identity;
use crate::table::Table;
use vstd::prelude::*;
use vstd::utf8::encode_utf8;

verus! {

/// The record store of one program: the admin singleton, and the issuer and
/// certificate records, each at its derived address.
pub struct Ledger {
    /// The program under which every record address is derived.
    pub program_id: Identity,
    pub admin: Option<AdminAccount>,
    pub issuers: Table<IssuerAccount>,
    pub certificates: Table<CertificateAccount>,
}

/// The signer of `initialize_admin`.
pub struct InitializeAdmin {
    pub authority: Identity,
}

/// The signer of `register_issuer`, who will own the new record.
pub struct RegisterIssuer {
    pub authority: Identity,
}

/// The signer of `verify_issuer` or `revoke_issuer`, and the address of the
/// issuer record acted on.
pub struct ManageIssuer {
    pub authority: Identity,
    pub issuer: Identity,
}

/// The signer of `issue_certificate`: the issuer.
pub struct IssueCertificate {
    pub authority: Identity,
}

/// The signer of `revoke_certificate`, and the address of the certificate.
pub struct RevokeCertificate {
    pub authority: Identity,
    pub certificate: Identity,
}

impl Ledger {
    /// Each record is stored at the address derived from its owner (and,
    /// for a certificate, its id).
    pub open spec fn wf(&self) -> bool {
        &&& self.issuers.wf()
        &&& self.certificates.wf()
        &&& forall|k: Seq<u8>| #[trigger] self.issuers.view().contains_key(k)
            ==> issuer_address_of(self.program_id@, self.issuers.view()[k].authority@) == Some(k)
        &&& forall|k: Seq<u8>| #[trigger] self.certificates.view().contains_key(k)
            ==> certificate_address_of(
                self.program_id@,
                self.certificates.view()[k].issuer@,
                encode_utf8(self.certificates.view()[k].certificate_id@),
            ) == Some(k)
    }

    /// An empty store for the program `program_id`.
    pub fn new(program_id: Identity) -> (r: Ledger)
        ensures
            r.wf(),
            r.program_id == program_id,
            r.admin is None,
            r.issuers.view() == Map::<Seq<u8>, IssuerAccount>::empty(),
            r.certificates.view() == Map::<Seq<u8>, CertificateAccount>::empty(),
    {
        Ledger { program_id, admin: None, issuers: Table::new(), certificates: Table::new() }
    }
}

/// Whether `who` is the admin's identity.
pub open spec fn is_admin(l: Ledger, who: Seq<u8>) -> bool {
    match l.admin {
        Some(a) => a.authority@ == who,
        None => false,
    }
}

/// Whether a text is non-empty and at most `max` UTF-8 bytes long.
pub open spec fn fits(s: Seq<char>, max: usize) -> bool {
    s.len() > 0 && byte_len(s) <= max
}

/// The issuer record that registration creates.
pub open spec fn fresh_issuer(authority: Identity, institution_name: String, now: i64) -> IssuerAccount {
    IssuerAccount {
        authority,
        institution_name,
        status: IssuerStatus::Unverified,
        certificates_issued: 0,
        reputation_score: 0,
        registered_at: now,
    }
}

/// `rec` with its status set to `status`.
pub open spec fn with_status(rec: IssuerAccount, status: IssuerStatus) -> IssuerAccount {
    IssuerAccount { status, ..rec }
}

/// `rec` after it issued one more certificate.
pub open spec fn after_issuing(rec: IssuerAccount) -> IssuerAccount {
    IssuerAccount {
        certificates_issued: (rec.certificates_issued + 1) as u64,
        reputation_score: (rec.reputation_score + REPUTATION_PER_CERTIFICATE) as u64,
        ..rec
    }
}

/// The certificate record that issuance creates.
pub open spec fn fresh_certificate(
    issuer: Identity,
    student_name: String,
    course_name: String,
    certificate_hash: String,
    certificate_id: String,
    now: i64,
) -> CertificateAccount {
    CertificateAccount {
        issuer,
        student_name,
        course_name,
        certificate_hash,
        certificate_id,
        issued_at: now,
        is_revoked: false,
    }
}

/// Why `initialize_admin` is refused, if it is.
pub open spec fn initialize_admin_error(l: Ledger) -> Option<CertiChainError> {
    if l.admin is Some {
        Some(CertiChainError::AlreadyInitialized)
    } else {
        None
    }
}

/// Why `register_issuer` is refused, if it is.
pub open spec fn register_issuer_error(l: Ledger, authority: Seq<u8>, name: Seq<char>) -> Option<CertiChainError> {
    if byte_len(name) > MAX_INSTITUTION_NAME_LEN {
        Some(CertiChainError::InstitutionNameTooLong)
    } else if name.len() == 0 {
        Some(CertiChainError::EmptyInstitutionName)
    } else {
        match issuer_address_of(l.program_id@, authority) {
            None => Some(CertiChainError::AddressUnavailable),
            Some(a) => if l.issuers.view().contains_key(a) {
                Some(CertiChainError::AlreadyRegistered)
            } else {
                None
            },
        }
    }
}

/// Why `verify_issuer` is refused, if it is.
pub open spec fn verify_issuer_error(l: Ledger, caller: Seq<u8>, issuer: Seq<u8>) -> Option<CertiChainError> {
    if !is_admin(l, caller) {
        Some(CertiChainError::UnauthorizedAdmin)
    } else if !l.issuers.view().contains_key(issuer) {
        Some(CertiChainError::AccountNotFound)
    } else if l.issuers.view()[issuer].status == IssuerStatus::Revoked {
        Some(CertiChainError::IssuerRevoked)
    } else {
        None
    }
}

/// Why `revoke_issuer` is refused, if it is.
pub open spec fn revoke_issuer_error(l: Ledger, caller: Seq<u8>, issuer: Seq<u8>) -> Option<CertiChainError> {
    if !is_admin(l, caller) {
        Some(CertiChainError::UnauthorizedAdmin)
    } else if !l.issuers.view().contains_key(issuer) {
        Some(CertiChainError::AccountNotFound)
    } else {
        None
    }
}

/// Why `issue_certificate` is refused, if it is: the texts first, then the
/// caller's issuer record, then the certificate's address, then the counters.
pub open spec fn issue_certificate_error(
    l: Ledger,
    caller: Seq<u8>,
    student_name: Seq<char>,
    course_name: Seq<char>,
    certificate_hash: Seq<char>,
    certificate_id: Seq<char>,
) -> Option<CertiChainError> {
    if byte_len(student_name) > MAX_STUDENT_NAME_LEN {
        Some(CertiChainError::StudentNameTooLong)
    } else if byte_len(course_name) > MAX_COURSE_NAME_LEN {
        Some(CertiChainError::CourseNameTooLong)
    } else if byte_len(certificate_hash) > MAX_CERTIFICATE_HASH_LEN {
        Some(CertiChainError::CertificateHashTooLong)
    } else if byte_len(certificate_id) > MAX_CERTIFICATE_ID_LEN {
        Some(CertiChainError::CertificateIdTooLong)
    } else if student_name.len() == 0 || course_name.len() == 0 || certificate_hash.len() == 0
        || certificate_id.len() == 0 {
        Some(CertiChainError::EmptyField)
    } else {
        match issuer_address_of(l.program_id@, caller) {
            None => Some(CertiChainError::AddressUnavailable),
            Some(ia) => if !l.issuers.view().contains_key(ia) {
                Some(CertiChainError::AccountNotFound)
            } else {
                issuance_error(l, caller, l.issuers.view()[ia], certificate_id)
            },
        }
    }
}

/// The checks of `issue_certificate` that follow the texts, given the
/// caller's issuer record `rec`.
pub open spec fn issuance_error(l: Ledger, caller: Seq<u8>, rec: IssuerAccount, certificate_id: Seq<char>) -> Option<CertiChainError> {
    if rec.authority@ != caller {
        Some(CertiChainError::UnauthorizedIssuer)
    } else if rec.status == IssuerStatus::Revoked {
        Some(CertiChainError::IssuerRevoked)
    } else if rec.status != IssuerStatus::Verified {
        Some(CertiChainError::IssuerNotVerified)
    } else {
        match certificate_address_of(l.program_id@, caller, encode_utf8(certificate_id)) {
            None => Some(CertiChainError::AddressUnavailable),
            Some(ca) => if l.certificates.view().contains_key(ca) {
                Some(CertiChainError::AlreadyExists)
            } else if rec.certificates_issued + 1 > u64::MAX
                || rec.reputation_score + REPUTATION_PER_CERTIFICATE > u64::MAX {
                Some(CertiChainError::Overflow)
            } else {
                None
            },
        }
    }
}

/// Why `revoke_certificate` is refused, if it is.
pub open spec fn revoke_certificate_error(l: Ledger, caller: Seq<u8>, certificate: Seq<u8>) -> Option<CertiChainError> {
    if !l.certificates.view().contains_key(certificate) {
        Some(CertiChainError::AccountNotFound)
    } else if l.certificates.view()[certificate].is_revoked {
        Some(CertiChainError::CertificateAlreadyRevoked)
    } else if l.certificates.view()[certificate].issuer@ != caller {
        Some(CertiChainError::UnauthorizedIssuer)
    } else {
        None
    }
}

/// No record is lost, an issuer keeps its owner and name, its counters
/// never decrease, and a revoked issuer stays revoked.
pub open spec fn issuers_only_advance(before: Ledger, after: Ledger) -> bool {
    forall|k: Seq<u8>| #[trigger] before.issuers.view().contains_key(k) ==> {
        let b = before.issuers.view()[k];
        let a = after.issuers.view()[k];
        &&& after.issuers.view().contains_key(k)
        &&& a.authority == b.authority
        &&& a.institution_name == b.institution_name
        &&& a.registered_at == b.registered_at
        &&& a.certificates_issued >= b.certificates_issued
        &&& a.reputation_score >= b.reputation_score
        &&& b.status == IssuerStatus::Revoked ==> a.status == IssuerStatus::Revoked
    }
}

/// No certificate is lost, none changes but for its revocation flag, and a
/// revoked one stays revoked.
pub open spec fn certificates_only_advance(before: Ledger, after: Ledger) -> bool {
    forall|k: Seq<u8>| #[trigger] before.certificates.view().contains_key(k) ==> {
        let b = before.certificates.view()[k];
        let a = after.certificates.view()[k];
        &&& after.certificates.view().contains_key(k)
        &&& a == with_revocation(b, a.is_revoked)
        &&& b.is_revoked ==> a.is_revoked
    }
}

/// What holds across every operation: the program and the admin stay, and
/// records only advance.
pub open spec fn only_advances(before: Ledger, after: Ledger) -> bool {
    &&& after.program_id == before.program_id
    &&& (before.admin is Some ==> after.admin == before.admin)
    &&& issuers_only_advance(before, after)
    &&& certificates_only_advance(before, after)
}

/// `c` with its revocation flag set to `revoked`.
pub open spec fn with_revocation(c: CertificateAccount, revoked: bool) -> CertificateAccount {
    CertificateAccount { is_revoked: revoked, ..c }
}

/// `initialize_admin` by `authority` at time `now` took `before` to `after`
/// with result `r`.
pub open spec fn initialize_admin_step(
    before: Ledger,
    after: Ledger,
    authority: Identity,
    now: i64,
    r: Result<(), CertiChainError>,
) -> bool {
    match initialize_admin_error(before) {
        Some(e) => r == Err::<(), CertiChainError>(e) && after == before,
        None => r is Ok && after == (Ledger {
            admin: Some(AdminAccount { authority, created_at: now }),
            ..before
        }),
    }
}

/// `register_issuer` by `authority` took `before` to `after` with result `r`.
pub open spec fn register_issuer_step(
    before: Ledger,
    after: Ledger,
    authority: Identity,
    institution_name: String,
    now: i64,
    r: Result<(), CertiChainError>,
) -> bool {
    match register_issuer_error(before, authority@, institution_name@) {
        Some(e) => r == Err::<(), CertiChainError>(e) && after == before,
        None => {
            &&& r is Ok
            &&& after.issuers.view() == before.issuers.view().insert(
                issuer_address_of(before.program_id@, authority@).unwrap(),
                fresh_issuer(authority, institution_name, now),
            )
            &&& after.program_id == before.program_id
            &&& after.admin == before.admin
            &&& after.certificates == before.certificates
        },
    }
}

/// `verify_issuer` by `caller` on the issuer at `issuer` took `before` to
/// `after` with result `r`.
pub open spec fn verify_issuer_step(
    before: Ledger,
    after: Ledger,
    caller: Identity,
    issuer: Identity,
    r: Result<(), CertiChainError>,
) -> bool {
    match verify_issuer_error(before, caller@, issuer@) {
        Some(e) => r == Err::<(), CertiChainError>(e) && after == before,
        None => {
            &&& r is Ok
            &&& after.issuers.view() == before.issuers.view().insert(
                issuer@,
                with_status(before.issuers.view()[issuer@], IssuerStatus::Verified),
            )
            &&& after.program_id == before.program_id
            &&& after.admin == before.admin
            &&& after.certificates == before.certificates
        },
    }
}

/// `revoke_issuer` by `caller` on the issuer at `issuer` took `before` to
/// `after` with result `r`.
pub open spec fn revoke_issuer_step(
    before: Ledger,
    after: Ledger,
    caller: Identity,
    issuer: Identity,
    r: Result<(), CertiChainError>,
) -> bool {
    match revoke_issuer_error(before, caller@, issuer@) {
        Some(e) => r == Err::<(), CertiChainError>(e) && after == before,
        None => {
            &&& r is Ok
            &&& after.issuers.view() == before.issuers.view().insert(
                issuer@,
                with_status(before.issuers.view()[issuer@], IssuerStatus::Revoked),
            )
            &&& after.program_id == before.program_id
            &&& after.admin == before.admin
            &&& after.certificates == before.certificates
        },
    }
}

/// `issue_certificate` by `caller` took `before` to `after` with result `r`.
pub open spec fn issue_certificate_step(
    before: Ledger,
    after: Ledger,
    caller: Identity,
    student_name: String,
    course_name: String,
    certificate_hash: String,
    certificate_id: String,
    now: i64,
    r: Result<(), CertiChainError>,
) -> bool {
    match issue_certificate_error(
        before,
        caller@,
        student_name@,
        course_name@,
        certificate_hash@,
        certificate_id@,
    ) {
        Some(e) => r == Err::<(), CertiChainError>(e) && after == before,
        None => {
            let ia = issuer_address_of(before.program_id@, caller@).unwrap();
            let ca = certificate_address_of(before.program_id@, caller@, encode_utf8(certificate_id@)).unwrap();
            &&& r is Ok
            &&& after.certificates.view() == before.certificates.view().insert(
                ca,
                fresh_certificate(caller, student_name, course_name, certificate_hash, certificate_id, now),
            )
            &&& after.issuers.view() == before.issuers.view().insert(ia, after_issuing(before.issuers.view()[ia]))
            &&& after.program_id == before.program_id
            &&& after.admin == before.admin
        },
    }
}

/// `revoke_certificate` by `caller` on the certificate at `certificate` took
/// `before` to `after` with result `r`.
pub open spec fn revoke_certificate_step(
    before: Ledger,
    after: Ledger,
    caller: Identity,
    certificate: Identity,
    r: Result<(), CertiChainError>,
) -> bool {
    match revoke_certificate_error(before, caller@, certificate@) {
        Some(e) => r == Err::<(), CertiChainError>(e) && after == before,
        None => {
            &&& r is Ok
            &&& after.certificates.view() == before.certificates.view().insert(
                certificate@,
                with_revocation(before.certificates.view()[certificate@], true),
            )
            &&& after.program_id == before.program_id
            &&& after.admin == before.admin
            &&& after.issuers == before.issuers
        },
    }
}

/// Creates the admin singleton, controlled by the signer.
pub fn initialize_admin(ledger: &mut Ledger, ctx: InitializeAdmin, now: i64) -> (r: Result<(), CertiChainError>)
    requires
        old(ledger).wf(),
    ensures
        final(ledger).wf(),
        only_advances(*old(ledger), *final(ledger)),
        initialize_admin_step(*old(ledger), *final(ledger), ctx.authority, now, r),
{
    if ledger.admin.is_some() {
        return Err(CertiChainError::AlreadyInitialized);
    }
    ledger.admin = Some(AdminAccount { authority: ctx.authority, created_at: now });
    Ok(())
}

fn caller_is_admin(ledger: &Ledger, who: &Identity) -> (r: bool)
    ensures
        r == is_admin(*ledger, who@),
{
    match &ledger.admin {
        Some(a) => a.authority.same_as(who),
        None => false,
    }
}

/// Registers the signer as an unverified issuer named `institution_name`.
pub fn register_issuer(ledger: &mut Ledger, ctx: RegisterIssuer, institution_name: String, now: i64) -> (r: Result<(), CertiChainError>)
    requires
        old(ledger).wf(),
    ensures
        final(ledger).wf(),
        only_advances(*old(ledger), *final(ledger)),
        register_issuer_step(*old(ledger), *final(ledger), ctx.authority, institution_name, now, r),
{
    if text_byte_len(&institution_name) > MAX_INSTITUTION_NAME_LEN {
        return Err(CertiChainError::InstitutionNameTooLong);
    }
    if institution_name.as_str().is_empty() {
        return Err(CertiChainError::EmptyInstitutionName);
    }
    let address = match issuer_address(&ledger.program_id, &ctx.authority) {
        Some(a) => a,
        None => return Err(CertiChainError::AddressUnavailable),
    };
    if ledger.issuers.contains(&address) {
        return Err(CertiChainError::AlreadyRegistered);
    }
    let issuer = IssuerAccount {
        authority: ctx.authority,
        institution_name,
        status: IssuerStatus::Unverified,
        certificates_issued: 0,
        reputation_score: 0,
        registered_at: now,
    };
    ledger.issuers.insert(address, issuer);
    Ok(())
}

/// The admin marks the issuer at `ctx.issuer` as verified.
pub fn verify_issuer(ledger: &mut Ledger, ctx: ManageIssuer) -> (r: Result<(), CertiChainError>)
    requires
        old(ledger).wf(),
    ensures
        final(ledger).wf(),
        only_advances(*old(ledger), *final(ledger)),
        verify_issuer_step(*old(ledger), *final(ledger), ctx.authority, ctx.issuer, r),
{
    if !caller_is_admin(ledger, &ctx.authority) {
        return Err(CertiChainError::UnauthorizedAdmin);
    }
    let updated = match ledger.issuers.get(&ctx.issuer) {
        None => return Err(CertiChainError::AccountNotFound),
        Some(rec) => {
            if rec.is_revoked() {
                return Err(CertiChainError::IssuerRevoked);
            }
            IssuerAccount {
                authority: rec.authority,
                institution_name: rec.institution_name.clone(),
                status: IssuerStatus::Verified,
                certificates_issued: rec.certificates_issued,
                reputation_score: rec.reputation_score,
                registered_at: rec.registered_at,
            }
        },
    };
    ledger.issuers.insert(ctx.issuer, updated);
    Ok(())
}

/// The admin revokes the issuer at `ctx.issuer`, for good.
pub fn revoke_issuer(ledger: &mut Ledger, ctx: ManageIssuer) -> (r: Result<(), CertiChainError>)
    requires
        old(ledger).wf(),
    ensures
        final(ledger).wf(),
        only_advances(*old(ledger), *final(ledger)),
        revoke_issuer_step(*old(ledger), *final(ledger), ctx.authority, ctx.issuer, r),
{
    if !caller_is_admin(ledger, &ctx.authority) {
        return Err(CertiChainError::UnauthorizedAdmin);
    }
    let updated = match ledger.issuers.get(&ctx.issuer) {
        None => return Err(CertiChainError::AccountNotFound),
        Some(rec) => IssuerAccount {
            authority: rec.authority,
            institution_name: rec.institution_name.clone(),
            status: IssuerStatus::Revoked,
            certificates_issued: rec.certificates_issued,
            reputation_score: rec.reputation_score,
            registered_at: rec.registered_at,
        },
    };
    ledger.issuers.insert(ctx.issuer, updated);
    Ok(())
}

/// The signer, a verified issuer, issues a certificate with the id
/// `certificate_id`; its issuer's counters grow with it.
pub fn issue_certificate(
    ledger: &mut Ledger,
    ctx: IssueCertificate,
    student_name: String,
    course_name: String,
    certificate_hash: String,
    certificate_id: String,
    now: i64,
) -> (r: Result<(), CertiChainError>)
    requires
        old(ledger).wf(),
    ensures
        final(ledger).wf(),
        only_advances(*old(ledger), *final(ledger)),
        issue_certificate_step(
            *old(ledger),
            *final(ledger),
            ctx.authority,
            student_name,
            course_name,
            certificate_hash,
            certificate_id,
            now,
            r,
        ),
{
    if text_byte_len(&student_name) > MAX_STUDENT_NAME_LEN {
        return Err(CertiChainError::StudentNameTooLong);
    }
    if text_byte_len(&course_name) > MAX_COURSE_NAME_LEN {
        return Err(CertiChainError::CourseNameTooLong);
    }
    if text_byte_len(&certificate_hash) > MAX_CERTIFICATE_HASH_LEN {
        return Err(CertiChainError::CertificateHashTooLong);
    }
    if text_byte_len(&certificate_id) > MAX_CERTIFICATE_ID_LEN {
        return Err(CertiChainError::CertificateIdTooLong);
    }
    if student_name.as_str().is_empty() || course_name.as_str().is_empty()
        || certificate_hash.as_str().is_empty() || certificate_id.as_str().is_empty() {
        return Err(CertiChainError::EmptyField);
    }
    let issuer_address = match issuer_address(&ledger.program_id, &ctx.authority) {
        Some(a) => a,
        None => return Err(CertiChainError::AddressUnavailable),
    };
    let (certificate_address, updated) = match ledger.issuers.get(&issuer_address) {
        None => return Err(CertiChainError::AccountNotFound),
        Some(rec) => {
            if !rec.authority.same_as(&ctx.authority) {
                return Err(CertiChainError::UnauthorizedIssuer);
            }
            if rec.is_revoked() {
                return Err(CertiChainError::IssuerRevoked);
            }
            if !rec.is_verified() {
                return Err(CertiChainError::IssuerNotVerified);
            }
            let ca = match certificate_address(&ledger.program_id, &ctx.authority, certificate_id.as_str()) {
                Some(a) => a,
                None => return Err(CertiChainError::AddressUnavailable),
            };
            if ledger.certificates.contains(&ca) {
                return Err(CertiChainError::AlreadyExists);
            }
            let issued = match rec.certificates_issued.checked_add(1) {
                Some(n) => n,
                None => return Err(CertiChainError::Overflow),
            };
            let score = match rec.reputation_score.checked_add(REPUTATION_PER_CERTIFICATE) {
                Some(n) => n,
                None => return Err(CertiChainError::Overflow),
            };
            let updated = IssuerAccount {
                authority: rec.authority,
                institution_name: rec.institution_name.clone(),
                status: rec.status,
                certificates_issued: issued,
                reputation_score: score,
                registered_at: rec.registered_at,
            };
            (ca, updated)
        },
    };
    let certificate = CertificateAccount {
        issuer: ctx.authority,
        student_name,
        course_name,
        certificate_hash,
        certificate_id,
        issued_at: now,
        is_revoked: false,
    };
    ledger.certificates.insert(certificate_address, certificate);
    ledger.issuers.insert(issuer_address, updated);
    Ok(())
}

/// The certificate's own issuer revokes it, for good.
pub fn revoke_certificate(ledger: &mut Ledger, ctx: RevokeCertificate) -> (r: Result<(), CertiChainError>)
    requires
        old(ledger).wf(),
    ensures
        final(ledger).wf(),
        only_advances(*old(ledger), *final(ledger)),
        revoke_certificate_step(*old(ledger), *final(ledger), ctx.authority, ctx.certificate, r),
{
    let updated = match ledger.certificates.get(&ctx.certificate) {
        None => return Err(CertiChainError::AccountNotFound),
        Some(cert) => {
            if cert.is_revoked {
                return Err(CertiChainError::CertificateAlreadyRevoked);
            }
            if !cert.issuer.same_as(&ctx.authority) {
                return Err(CertiChainError::UnauthorizedIssuer);
            }
            CertificateAccount {
                issuer: cert.issuer,
                student_name: cert.student_name.clone(),
                course_name: cert.course_name.clone(),
                certificate_hash: cert.certificate_hash.clone(),
                certificate_id: cert.certificate_id.clone(),
                issued_at: cert.issued_at,
                is_revoked: true,
            }
        },
    };
    ledger.certificates.insert(ctx.certificate, updated);
    Ok(())
}

} // verus!
