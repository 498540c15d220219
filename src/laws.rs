//! Properties that relate several operations, proved from their contracts.
use crate::accounts::{
    IssuerStatus, MAX_CERTIFICATE_HASH_LEN, MAX_CERTIFICATE_ID_LEN, MAX_COURSE_NAME_LEN,
    MAX_INSTITUTION_NAME_LEN, MAX_STUDENT_NAME_LEN, REPUTATION_PER_CERTIFICATE,
};
use crate::address::{certificate_address_of, issuer_address_of};
use crate::error::CertiChainError;
use crate::identity::Identity;
use crate::ledger::{
    fits, is_admin, issue_certificate_step, only_advances, register_issuer_step,
    revoke_certificate_step, revoke_issuer_step, verify_issuer_step, Ledger,
};
use vstd::prelude::*;
use vstd::utf8::encode_utf8;

verus! {

/// Whether the four texts of an issuance are non-empty and short enough.
pub open spec fn certificate_texts_fit(
    student_name: String,
    course_name: String,
    certificate_hash: String,
    certificate_id: String,
) -> bool {
    &&& fits(student_name@, MAX_STUDENT_NAME_LEN)
    &&& fits(course_name@, MAX_COURSE_NAME_LEN)
    &&& fits(certificate_hash@, MAX_CERTIFICATE_HASH_LEN)
    &&& fits(certificate_id@, MAX_CERTIFICATE_ID_LEN)
}

/// With a valid institution name, registration succeeds exactly when the
/// signer's issuer address exists and holds no record; the record then read
/// at that address is neither verified nor revoked, and its counters are zero.
pub proof fn lemma_registered_issuer_starts_unverified(
    before: Ledger,
    after: Ledger,
    authority: Identity,
    institution_name: String,
    now: i64,
    r: Result<(), CertiChainError>,
)
    requires
        before.wf(),
        fits(institution_name@, MAX_INSTITUTION_NAME_LEN),
        register_issuer_step(before, after, authority, institution_name, now, r),
    ensures
        r is Ok <==> match issuer_address_of(before.program_id@, authority@) {
            Some(a) => !before.issuers.view().contains_key(a),
            None => false,
        },
        r is Ok ==> {
            let a = issuer_address_of(before.program_id@, authority@).unwrap();
            let rec = after.issuers.view()[a];
            &&& after.issuers.view().contains_key(a)
            &&& rec.status == IssuerStatus::Unverified
            &&& rec.certificates_issued == 0
            &&& rec.reputation_score == 0
            &&& rec.authority == authority
            &&& rec.institution_name == institution_name
        },
{
}

/// Whoever is not the admin cannot verify an issuer, whatever the issuer's
/// state: the call fails with `UnauthorizedAdmin` and changes nothing.
pub proof fn lemma_only_admin_verifies(
    before: Ledger,
    after: Ledger,
    caller: Identity,
    issuer: Identity,
    r: Result<(), CertiChainError>,
)
    requires
        !is_admin(before, caller@),
        verify_issuer_step(before, after, caller, issuer, r),
    ensures
        r == Err::<(), CertiChainError>(CertiChainError::UnauthorizedAdmin),
        after == before,
{
}

/// Along a run of operations, each of which only advances the records, an
/// issuer revoked at the start is revoked at the end.
pub proof fn lemma_revocation_is_permanent(run: Seq<Ledger>, issuer: Seq<u8>)
    requires
        run.len() > 0,
        forall|i: int| 0 <= i < run.len() - 1 ==> only_advances(#[trigger] run[i], run[i + 1]),
        run[0].issuers.view().contains_key(issuer),
        run[0].issuers.view()[issuer].status == IssuerStatus::Revoked,
    ensures
        run.last().issuers.view().contains_key(issuer),
        run.last().issuers.view()[issuer].status == IssuerStatus::Revoked,
        run.last().issuers.view()[issuer].authority == run[0].issuers.view()[issuer].authority,
        run.last().program_id == run[0].program_id,
    decreases run.len(),
{
    if run.len() > 1 {
        let d = run.drop_last();
        assert forall|i: int| 0 <= i < d.len() - 1 implies only_advances(#[trigger] d[i], d[i + 1]) by {
            assert(d[i] == run[i] && d[i + 1] == run[i + 1]);
        }
        lemma_revocation_is_permanent(d, issuer);
        assert(only_advances(run[run.len() - 2], run[run.len() - 1]));
    }
}

/// Once the admin has revoked an issuer, every later issuance by that
/// issuer (with valid texts) fails with `IssuerRevoked`, whatever ran in
/// between.
pub proof fn lemma_revoked_issuer_cannot_issue(
    run: Seq<Ledger>,
    admin: Identity,
    issuer: Identity,
    revoked: Result<(), CertiChainError>,
    after: Ledger,
    student_name: String,
    course_name: String,
    certificate_hash: String,
    certificate_id: String,
    now: i64,
    r: Result<(), CertiChainError>,
)
    requires
        run.len() > 1,
        run.last().wf(),
        revoke_issuer_step(run[0], run[1], admin, issuer, revoked),
        revoked is Ok,
        forall|i: int| 1 <= i < run.len() - 1 ==> only_advances(#[trigger] run[i], run[i + 1]),
        certificate_texts_fit(student_name, course_name, certificate_hash, certificate_id),
        issue_certificate_step(
            run.last(),
            after,
            run[0].issuers.view()[issuer@].authority,
            student_name,
            course_name,
            certificate_hash,
            certificate_id,
            now,
            r,
        ),
    ensures
        r == Err::<(), CertiChainError>(CertiChainError::IssuerRevoked),
{
    let rest = run.subrange(1, run.len() as int);
    assert forall|i: int| 0 <= i < rest.len() - 1 implies only_advances(#[trigger] rest[i], rest[i + 1]) by {
        assert(rest[i] == run[i + 1] && rest[i + 1] == run[i + 2]);
    }
    lemma_revocation_is_permanent(rest, issuer@);
    assert(rest.last() == run.last());
}

/// Once the admin has revoked an issuer, every later verification of it by
/// the admin fails with `IssuerRevoked`, whatever ran in between.
pub proof fn lemma_revoked_issuer_cannot_be_verified(
    run: Seq<Ledger>,
    admin: Identity,
    issuer: Identity,
    revoked: Result<(), CertiChainError>,
    after: Ledger,
    r: Result<(), CertiChainError>,
)
    requires
        run.len() > 1,
        revoke_issuer_step(run[0], run[1], admin, issuer, revoked),
        revoked is Ok,
        forall|i: int| 1 <= i < run.len() - 1 ==> only_advances(#[trigger] run[i], run[i + 1]),
        verify_issuer_step(run.last(), after, admin, issuer, r),
    ensures
        r == Err::<(), CertiChainError>(CertiChainError::IssuerRevoked),
{
    let rest = run.subrange(1, run.len() as int);
    assert forall|i: int| 0 <= i < rest.len() - 1 implies only_advances(#[trigger] rest[i], rest[i + 1]) by {
        assert(rest[i] == run[i + 1] && rest[i + 1] == run[i + 2]);
    }
    lemma_revocation_is_permanent(rest, issuer@);
    assert(rest.last() == run.last());
    assert(is_admin(run[0], admin@));
    if rest.len() > 1 {
        lemma_admin_is_kept(rest);
    }
}

proof fn lemma_admin_is_kept(run: Seq<Ledger>)
    requires
        run.len() > 1,
        run[0].admin is Some,
        forall|i: int| 0 <= i < run.len() - 1 ==> only_advances(#[trigger] run[i], run[i + 1]),
    ensures
        run.last().admin == run[0].admin,
    decreases run.len(),
{
    if run.len() > 2 {
        let d = run.drop_last();
        assert forall|i: int| 0 <= i < d.len() - 1 implies only_advances(#[trigger] d[i], d[i + 1]) by {
            assert(d[i] == run[i] && d[i + 1] == run[i + 1]);
        }
        lemma_admin_is_kept(d);
        assert(only_advances(run[run.len() - 2], run[run.len() - 1]));
    } else {
        assert(only_advances(run[0], run[1]));
    }
}

/// Issuing a second certificate with the same id from the same issuer fails
/// with `AlreadyExists` and leaves the first record as it was.
pub proof fn lemma_duplicate_certificate_refused(
    first: Ledger,
    middle: Ledger,
    last: Ledger,
    caller: Identity,
    student_name: String,
    course_name: String,
    certificate_hash: String,
    certificate_id: String,
    now: i64,
    r: Result<(), CertiChainError>,
    student_name2: String,
    course_name2: String,
    certificate_hash2: String,
    now2: i64,
    r2: Result<(), CertiChainError>,
)
    requires
        issue_certificate_step(
            first,
            middle,
            caller,
            student_name,
            course_name,
            certificate_hash,
            certificate_id,
            now,
            r,
        ),
        r is Ok,
        certificate_texts_fit(student_name2, course_name2, certificate_hash2, certificate_id),
        issue_certificate_step(
            middle,
            last,
            caller,
            student_name2,
            course_name2,
            certificate_hash2,
            certificate_id,
            now2,
            r2,
        ),
    ensures
        r2 == Err::<(), CertiChainError>(CertiChainError::AlreadyExists),
        last == middle,
        ({
            let ca = certificate_address_of(first.program_id@, caller@, encode_utf8(certificate_id@)).unwrap();
            &&& last.certificates.view().contains_key(ca)
            &&& last.certificates.view()[ca] == middle.certificates.view()[ca]
        }),
{
    let ia = issuer_address_of(first.program_id@, caller@).unwrap();
    assert(middle.issuers.view().contains_key(ia));
}

/// After `n` successful issuances by one issuer, its counters have grown by
/// exactly `n` and `REPUTATION_PER_CERTIFICATE * n`; from a fresh
/// registration they are `n` and `REPUTATION_PER_CERTIFICATE * n`.
pub proof fn lemma_counters_track_issuance(
    run: Seq<Ledger>,
    caller: Identity,
    student_names: Seq<String>,
    course_names: Seq<String>,
    certificate_hashes: Seq<String>,
    certificate_ids: Seq<String>,
    nows: Seq<i64>,
    results: Seq<Result<(), CertiChainError>>,
)
    requires
        run.len() > 0,
        student_names.len() == run.len() - 1,
        course_names.len() == run.len() - 1,
        certificate_hashes.len() == run.len() - 1,
        certificate_ids.len() == run.len() - 1,
        nows.len() == run.len() - 1,
        results.len() == run.len() - 1,
        issuer_address_of(run[0].program_id@, caller@) is Some,
        run[0].issuers.view().contains_key(issuer_address_of(run[0].program_id@, caller@).unwrap()),
        forall|i: int| 0 <= i < run.len() - 1 ==> #[trigger] results[i] is Ok
            && issue_certificate_step(
                run[i],
                run[i + 1],
                caller,
                student_names[i],
                course_names[i],
                certificate_hashes[i],
                certificate_ids[i],
                nows[i],
                results[i],
            ),
    ensures
        ({
            let a = issuer_address_of(run[0].program_id@, caller@).unwrap();
            let n = run.len() - 1;
            let start = run[0].issuers.view()[a];
            let end = run.last().issuers.view()[a];
            &&& run.last().issuers.view().contains_key(a)
            &&& run.last().program_id == run[0].program_id
            &&& end.certificates_issued == start.certificates_issued + n
            &&& end.reputation_score == start.reputation_score + REPUTATION_PER_CERTIFICATE * n
            &&& (start.certificates_issued == 0 && start.reputation_score == 0) ==> {
                &&& end.certificates_issued == n
                &&& end.reputation_score == REPUTATION_PER_CERTIFICATE * n
            }
        }),
    decreases run.len(),
{
    if run.len() > 1 {
        let k = run.len() - 1;
        let d = run.drop_last();
        assert forall|i: int| 0 <= i < d.len() - 1 implies #[trigger] results.drop_last()[i] is Ok
            && issue_certificate_step(
                d[i],
                d[i + 1],
                caller,
                student_names.drop_last()[i],
                course_names.drop_last()[i],
                certificate_hashes.drop_last()[i],
                certificate_ids.drop_last()[i],
                nows.drop_last()[i],
                results.drop_last()[i],
            ) by {
            assert(results[i] is Ok);
        }
        lemma_counters_track_issuance(
            d,
            caller,
            student_names.drop_last(),
            course_names.drop_last(),
            certificate_hashes.drop_last(),
            certificate_ids.drop_last(),
            nows.drop_last(),
            results.drop_last(),
        );
        assert(results[k - 1] is Ok);
        assert(d.last() == run[k - 1]);
    }
}

/// Revoking a live certificate as its issuer succeeds and sets its flag; a
/// second revocation fails with `CertificateAlreadyRevoked` and changes
/// nothing.
pub proof fn lemma_certificate_revoked_once(
    first: Ledger,
    middle: Ledger,
    last: Ledger,
    caller: Identity,
    certificate: Identity,
    r: Result<(), CertiChainError>,
    r2: Result<(), CertiChainError>,
)
    requires
        first.certificates.view().contains_key(certificate@),
        !first.certificates.view()[certificate@].is_revoked,
        first.certificates.view()[certificate@].issuer@ == caller@,
        revoke_certificate_step(first, middle, caller, certificate, r),
        revoke_certificate_step(middle, last, caller, certificate, r2),
    ensures
        r is Ok,
        middle.certificates.view()[certificate@].is_revoked,
        r2 == Err::<(), CertiChainError>(CertiChainError::CertificateAlreadyRevoked),
        last == middle,
{
}

} // verus!
