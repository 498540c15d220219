use certichain::address::{certificate_address, issuer_address};
use certichain::{
    initialize_admin, issue_certificate, register_issuer, revoke_certificate, revoke_issuer,
    verify_issuer, CertiChainError, Identity, InitializeAdmin, IssueCertificate, IssuerStatus,
    Ledger, ManageIssuer, RegisterIssuer, RevokeCertificate,
};

fn id(b: u8) -> Identity {
    Identity::new([b; 32])
}

fn program() -> Identity {
    let mut bytes = [0u8; 32];
    for (i, b) in bytes.iter_mut().enumerate() {
        *b = (i as u8).wrapping_mul(7).wrapping_add(3);
    }
    Identity::new(bytes)
}

fn s(t: &str) -> String {
    t.to_string()
}

fn issuer_addr(l: &Ledger, who: Identity) -> Identity {
    issuer_address(&l.program_id, &who).expect("issuer address")
}

fn cert_addr(l: &Ledger, who: Identity, cid: &str) -> Identity {
    certificate_address(&l.program_id, &who, cid).expect("certificate address")
}

/// A ledger with admin `a` and a verified issuer `b`.
fn setup() -> Ledger {
    let mut l = Ledger::new(program());
    initialize_admin(&mut l, InitializeAdmin { authority: id(1) }, 100).unwrap();
    register_issuer(&mut l, RegisterIssuer { authority: id(2) }, s("MIT"), 101).unwrap();
    let ia = issuer_addr(&l, id(2));
    verify_issuer(&mut l, ManageIssuer { authority: id(1), issuer: ia }).unwrap();
    l
}

fn issue(l: &mut Ledger, who: Identity, cid: &str) -> Result<(), CertiChainError> {
    issue_certificate(
        l,
        IssueCertificate { authority: who },
        s("Alice"),
        s("CS101"),
        s("deadbeefdeadbeefdeadbeefdeadbeefdeadbeefdeadbeefdeadbeefdeadbeef"),
        s(cid),
        200,
    )
}

#[test]
fn end_to_end_scenario() {
    let a = id(1);
    let b = id(2);
    let c = id(3);
    let mut l = Ledger::new(program());
    assert_eq!(initialize_admin(&mut l, InitializeAdmin { authority: a }, 10), Ok(()));
    assert_eq!(register_issuer(&mut l, RegisterIssuer { authority: b }, s("MIT"), 11), Ok(()));
    let ia = issuer_addr(&l, b);
    {
        let rec = l.issuers.get(&ia).unwrap();
        assert!(!rec.is_verified());
        assert!(!rec.is_revoked());
        assert_eq!(rec.institution_name, "MIT");
    }
    assert_eq!(verify_issuer(&mut l, ManageIssuer { authority: a, issuer: ia }), Ok(()));
    assert!(l.issuers.get(&ia).unwrap().is_verified());
    assert_eq!(issue(&mut l, b, "cert-1"), Ok(()));
    {
        let rec = l.issuers.get(&ia).unwrap();
        assert_eq!((rec.certificates_issued, rec.reputation_score), (1, 10));
    }
    let ca = cert_addr(&l, b, "cert-1");
    assert_eq!(
        revoke_certificate(&mut l, RevokeCertificate { authority: c, certificate: ca }),
        Err(CertiChainError::UnauthorizedIssuer)
    );
    assert!(!l.certificates.get(&ca).unwrap().is_revoked);
    assert_eq!(revoke_certificate(&mut l, RevokeCertificate { authority: b, certificate: ca }), Ok(()));
    assert!(l.certificates.get(&ca).unwrap().is_revoked);
}

#[test]
fn registered_issuer_starts_unverified() {
    let mut l = Ledger::new(program());
    let name = "x".repeat(64);
    assert_eq!(register_issuer(&mut l, RegisterIssuer { authority: id(9) }, name.clone(), 5), Ok(()));
    let rec = l.issuers.get(&issuer_addr(&l, id(9))).unwrap();
    assert_eq!(rec.status, IssuerStatus::Unverified);
    assert_eq!(rec.certificates_issued, 0);
    assert_eq!(rec.reputation_score, 0);
    assert_eq!(rec.registered_at, 5);
    assert_eq!(rec.institution_name, name);
    assert_eq!(rec.authority.bytes, [9u8; 32]);
}

#[test]
fn register_rejects_bad_names_and_duplicates() {
    let mut l = Ledger::new(program());
    assert_eq!(
        register_issuer(&mut l, RegisterIssuer { authority: id(9) }, "x".repeat(65), 5),
        Err(CertiChainError::InstitutionNameTooLong)
    );
    assert_eq!(
        register_issuer(&mut l, RegisterIssuer { authority: id(9) }, s(""), 5),
        Err(CertiChainError::EmptyInstitutionName)
    );
    assert!(!l.issuers.contains(&issuer_addr(&l, id(9))));
    assert_eq!(register_issuer(&mut l, RegisterIssuer { authority: id(9) }, s("A"), 5), Ok(()));
    assert_eq!(
        register_issuer(&mut l, RegisterIssuer { authority: id(9) }, s("B"), 6),
        Err(CertiChainError::AlreadyRegistered)
    );
    assert_eq!(l.issuers.get(&issuer_addr(&l, id(9))).unwrap().institution_name, "A");
}

#[test]
fn admin_initializes_once() {
    let mut l = Ledger::new(program());
    assert_eq!(initialize_admin(&mut l, InitializeAdmin { authority: id(1) }, 7), Ok(()));
    assert_eq!(
        initialize_admin(&mut l, InitializeAdmin { authority: id(2) }, 8),
        Err(CertiChainError::AlreadyInitialized)
    );
    let admin = l.admin.as_ref().unwrap();
    assert_eq!(admin.authority.bytes, [1u8; 32]);
    assert_eq!(admin.created_at, 7);
}

#[test]
fn non_admin_cannot_verify_or_revoke() {
    let mut l = Ledger::new(program());
    register_issuer(&mut l, RegisterIssuer { authority: id(2) }, s("MIT"), 1).unwrap();
    let ia = issuer_addr(&l, id(2));
    // no admin yet
    assert_eq!(
        verify_issuer(&mut l, ManageIssuer { authority: id(1), issuer: ia }),
        Err(CertiChainError::UnauthorizedAdmin)
    );
    initialize_admin(&mut l, InitializeAdmin { authority: id(1) }, 2).unwrap();
    assert_eq!(
        verify_issuer(&mut l, ManageIssuer { authority: id(2), issuer: ia }),
        Err(CertiChainError::UnauthorizedAdmin)
    );
    assert_eq!(
        revoke_issuer(&mut l, ManageIssuer { authority: id(3), issuer: ia }),
        Err(CertiChainError::UnauthorizedAdmin)
    );
    verify_issuer(&mut l, ManageIssuer { authority: id(1), issuer: ia }).unwrap();
    assert_eq!(
        verify_issuer(&mut l, ManageIssuer { authority: id(3), issuer: ia }),
        Err(CertiChainError::UnauthorizedAdmin)
    );
    assert_eq!(l.issuers.get(&ia).unwrap().status, IssuerStatus::Verified);
}

#[test]
fn verify_is_idempotent_and_unknown_issuer_not_found() {
    let mut l = setup();
    let ia = issuer_addr(&l, id(2));
    assert_eq!(verify_issuer(&mut l, ManageIssuer { authority: id(1), issuer: ia }), Ok(()));
    assert_eq!(l.issuers.get(&ia).unwrap().status, IssuerStatus::Verified);
    assert_eq!(
        verify_issuer(&mut l, ManageIssuer { authority: id(1), issuer: id(42) }),
        Err(CertiChainError::AccountNotFound)
    );
}

#[test]
fn revoked_issuer_cannot_issue_or_be_verified() {
    let mut l = setup();
    let ia = issuer_addr(&l, id(2));
    assert_eq!(issue(&mut l, id(2), "c1"), Ok(()));
    assert_eq!(revoke_issuer(&mut l, ManageIssuer { authority: id(1), issuer: ia }), Ok(()));
    assert_eq!(l.issuers.get(&ia).unwrap().status, IssuerStatus::Revoked);
    assert!(!l.issuers.get(&ia).unwrap().is_verified());
    assert_eq!(issue(&mut l, id(2), "c2"), Err(CertiChainError::IssuerRevoked));
    assert_eq!(
        verify_issuer(&mut l, ManageIssuer { authority: id(1), issuer: ia }),
        Err(CertiChainError::IssuerRevoked)
    );
    assert_eq!(revoke_issuer(&mut l, ManageIssuer { authority: id(1), issuer: ia }), Ok(()));
    assert_eq!(issue(&mut l, id(2), "c3"), Err(CertiChainError::IssuerRevoked));
    assert_eq!(l.issuers.get(&ia).unwrap().certificates_issued, 1);
}

#[test]
fn unverified_or_unregistered_issuer_cannot_issue() {
    let mut l = Ledger::new(program());
    initialize_admin(&mut l, InitializeAdmin { authority: id(1) }, 1).unwrap();
    assert_eq!(issue(&mut l, id(2), "c1"), Err(CertiChainError::AccountNotFound));
    register_issuer(&mut l, RegisterIssuer { authority: id(2) }, s("MIT"), 1).unwrap();
    assert_eq!(issue(&mut l, id(2), "c1"), Err(CertiChainError::IssuerNotVerified));
}

#[test]
fn duplicate_certificate_id_refused() {
    let mut l = setup();
    assert_eq!(issue(&mut l, id(2), "cert-1"), Ok(()));
    let ca = cert_addr(&l, id(2), "cert-1");
    let r = issue_certificate(
        &mut l,
        IssueCertificate { authority: id(2) },
        s("Bob"),
        s("CS102"),
        s("abcd"),
        s("cert-1"),
        300,
    );
    assert_eq!(r, Err(CertiChainError::AlreadyExists));
    let cert = l.certificates.get(&ca).unwrap();
    assert_eq!(cert.student_name, "Alice");
    assert_eq!(cert.course_name, "CS101");
    assert_eq!(cert.issued_at, 200);
    assert_eq!(cert.certificate_id, "cert-1");
    assert!(!cert.is_revoked);
    assert_eq!(l.issuers.get(&issuer_addr(&l, id(2))).unwrap().certificates_issued, 1);
}

#[test]
fn same_id_under_two_issuers() {
    let mut l = setup();
    register_issuer(&mut l, RegisterIssuer { authority: id(5) }, s("ETH"), 1).unwrap();
    let ia5 = issuer_addr(&l, id(5));
    verify_issuer(&mut l, ManageIssuer { authority: id(1), issuer: ia5 }).unwrap();
    assert_eq!(issue(&mut l, id(2), "cert-1"), Ok(()));
    assert_eq!(issue(&mut l, id(5), "cert-1"), Ok(()));
    assert_ne!(cert_addr(&l, id(2), "cert-1").bytes, cert_addr(&l, id(5), "cert-1").bytes);
    assert_eq!(l.certificates.get(&cert_addr(&l, id(5), "cert-1")).unwrap().issuer.bytes, [5u8; 32]);
}

#[test]
fn counters_track_issuance() {
    let mut l = setup();
    for i in 0..25 {
        assert_eq!(issue(&mut l, id(2), &format!("cert-{}", i)), Ok(()));
    }
    let rec = l.issuers.get(&issuer_addr(&l, id(2))).unwrap();
    assert_eq!(rec.certificates_issued, 25);
    assert_eq!(rec.reputation_score, 250);
}

#[test]
fn certificate_revoked_once() {
    let mut l = setup();
    issue(&mut l, id(2), "c").unwrap();
    let ca = cert_addr(&l, id(2), "c");
    assert_eq!(revoke_certificate(&mut l, RevokeCertificate { authority: id(2), certificate: ca }), Ok(()));
    assert!(l.certificates.get(&ca).unwrap().is_revoked);
    assert_eq!(
        revoke_certificate(&mut l, RevokeCertificate { authority: id(2), certificate: ca }),
        Err(CertiChainError::CertificateAlreadyRevoked)
    );
    assert_eq!(
        revoke_certificate(&mut l, RevokeCertificate { authority: id(3), certificate: ca }),
        Err(CertiChainError::CertificateAlreadyRevoked)
    );
    assert_eq!(
        revoke_certificate(&mut l, RevokeCertificate { authority: id(2), certificate: id(77) }),
        Err(CertiChainError::AccountNotFound)
    );
}

#[test]
fn admin_cannot_revoke_certificate() {
    let mut l = setup();
    issue(&mut l, id(2), "c").unwrap();
    let ca = cert_addr(&l, id(2), "c");
    assert_eq!(
        revoke_certificate(&mut l, RevokeCertificate { authority: id(1), certificate: ca }),
        Err(CertiChainError::UnauthorizedIssuer)
    );
}

#[test]
fn certificate_text_validation() {
    let mut l = setup();
    let ok64 = "h".repeat(64);
    let go = |l: &mut Ledger, st: String, co: String, h: String, c: String| {
        issue_certificate(l, IssueCertificate { authority: id(2) }, st, co, h, c, 1)
    };
    assert_eq!(go(&mut l, "s".repeat(65), s("c"), s("h"), s("i")), Err(CertiChainError::StudentNameTooLong));
    assert_eq!(go(&mut l, s("s"), "c".repeat(129), s("h"), s("i")), Err(CertiChainError::CourseNameTooLong));
    assert_eq!(go(&mut l, s("s"), s("c"), "h".repeat(65), s("i")), Err(CertiChainError::CertificateHashTooLong));
    assert_eq!(go(&mut l, s("s"), s("c"), s("h"), "i".repeat(65)), Err(CertiChainError::CertificateIdTooLong));
    assert_eq!(go(&mut l, s(""), s("c"), s("h"), s("i")), Err(CertiChainError::EmptyField));
    assert_eq!(go(&mut l, s("s"), s("c"), s("h"), s("")), Err(CertiChainError::EmptyField));
    // a too-long field is reported before an empty one
    assert_eq!(go(&mut l, s(""), s("c"), "h".repeat(65), s("i")), Err(CertiChainError::CertificateHashTooLong));
    assert_eq!(l.issuers.get(&issuer_addr(&l, id(2))).unwrap().certificates_issued, 0);
    // the longest of each field is accepted, also an id longer than one seed
    assert_eq!(go(&mut l, "s".repeat(64), "c".repeat(128), ok64.clone(), "i".repeat(64)), Ok(()));
    assert_eq!(go(&mut l, s("s"), s("c"), ok64, "i".repeat(33)), Ok(()));
    assert_eq!(l.issuers.get(&issuer_addr(&l, id(2))).unwrap().certificates_issued, 2);
}

#[test]
fn addresses_are_deterministic_and_distinct() {
    let p = program();
    let a1 = issuer_address(&p, &id(2)).unwrap();
    let a2 = issuer_address(&p, &id(2)).unwrap();
    assert_eq!(a1.bytes, a2.bytes);
    assert_ne!(a1.bytes, issuer_address(&p, &id(3)).unwrap().bytes);
    assert_ne!(a1.bytes, id(2).bytes);
    let c1 = certificate_address(&p, &id(2), "ab").unwrap();
    assert_ne!(c1.bytes, certificate_address(&p, &id(2), "ac").unwrap().bytes);
    assert_ne!(c1.bytes, a1.bytes);
    assert!(certificate_address(&p, &id(2), &"i".repeat(65)).is_none());
    assert!(issuer_address(&id(8), &id(2)).unwrap().bytes != a1.bytes);
}

#[test]
fn error_messages() {
    assert_eq!(CertiChainError::Overflow.message(), "Arithmetic overflow");
    assert_eq!(CertiChainError::IssuerRevoked.message(), "Issuer has been revoked");
}

#[test]
fn counter_overflow_refused() {
    for (issued, score) in [(u64::MAX, 0u64), (0u64, u64::MAX - 9)] {
        let mut l = setup();
        let ia = issuer_addr(&l, id(2));
        let rec = l.issuers.get(&ia).unwrap();
        let worn = certichain::IssuerAccount {
            authority: rec.authority,
            institution_name: rec.institution_name.clone(),
            status: rec.status,
            certificates_issued: issued,
            reputation_score: score,
            registered_at: rec.registered_at,
        };
        l.issuers.insert(ia, worn);
        assert_eq!(issue(&mut l, id(2), "c"), Err(CertiChainError::Overflow));
        assert!(!l.certificates.contains(&cert_addr(&l, id(2), "c")));
        let rec = l.issuers.get(&ia).unwrap();
        assert_eq!((rec.certificates_issued, rec.reputation_score), (issued, score));
    }
    let mut l = setup();
    let ia = issuer_addr(&l, id(2));
    let rec = l.issuers.get(&ia).unwrap();
    let near = certichain::IssuerAccount {
        authority: rec.authority,
        institution_name: rec.institution_name.clone(),
        status: rec.status,
        certificates_issued: u64::MAX - 1,
        reputation_score: u64::MAX - 10,
        registered_at: rec.registered_at,
    };
    l.issuers.insert(ia, near);
    assert_eq!(issue(&mut l, id(2), "c"), Ok(()));
    let rec = l.issuers.get(&ia).unwrap();
    assert_eq!((rec.certificates_issued, rec.reputation_score), (u64::MAX, u64::MAX));
}
