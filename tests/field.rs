use gpt_exchange::ask::GetJob;
use gpt_exchange::field::{
    DbId, EscrowId, JobError, JobId, ManifestId, ManifestUrl, Password, Posted, Responses,
    ShortCode,
};
use gpt_exchange::query::{key_count_is_valid, RevocationStatus};

#[test]
fn disallow_empty_escrow_id() {
    assert!(EscrowId::new("").is_err());
}

#[test]
fn blank_manifest_id_converts_to_none() {
    assert!(ManifestId::new("".to_owned()).into_inner().is_none());
}

#[test]
fn valid_manifest_id_allowed() {
    assert!(ManifestId::new("manifest_id".to_owned())
        .into_inner()
        .is_some());
}

#[test]
fn blank_manifest_url_converts_to_none() {
    assert!(ManifestUrl::new("".to_owned()).into_inner().is_none());
}

#[test]
fn valid_manifest_url_allowed() {
    assert!(ManifestUrl::new("manifest_url".to_owned())
        .into_inner()
        .is_some());
}

#[test]
fn white_space_escrow_id_is_refused() {
    assert_eq!(EscrowId::new(" \t\n ").unwrap_err(), JobError::EmptyEscrowId);
}

#[test]
fn escrow_id_keeps_its_text() {
    let e = EscrowId::new("  0xabc ").unwrap();
    assert_eq!(e.as_str(), "  0xabc ");
    assert_eq!(e.into_inner(), "  0xabc ".to_owned());
}

#[test]
fn manifest_id_from_none_and_blank() {
    assert!(ManifestId::new(None).into_inner().is_none());
    assert!(ManifestId::from_option(Some("   ".to_owned())).into_inner().is_none());
    assert_eq!(
        ManifestId::from_option(Some(" m ".to_owned())).into_inner(),
        Some(" m ".to_owned())
    );
}

#[test]
fn manifest_url_keeps_text() {
    assert_eq!(
        ManifestUrl::new(Some("https://x/y".to_owned())).into_inner(),
        Some("https://x/y".to_owned())
    );
}

#[test]
fn plain_fields_hold_their_values() {
    assert_eq!(Posted::new(1_650_000_000).into_inner(), 1_650_000_000);
    assert_eq!(Responses::new(42).into_inner(), 42);
    assert_eq!(JobId::default().into_inner(), DbId::nil());
    assert_eq!(JobId::new(DbId { bits: 7 }).into_inner().bits, 7);
}

#[test]
fn password_rules() {
    let none = Password::default();
    let blank = Password::from_option(Some("  ".to_owned()));
    let set = Password::from_option(Some("123".to_owned()));
    let other = Password::from_option(Some("abc".to_owned()));
    assert!(!none.has_password());
    assert!(!blank.has_password());
    assert!(set.has_password());
    assert!(none.admits(&other));
    assert!(set.admits(&set.clone()));
    assert!(!set.admits(&other));
    assert!(!set.admits(&none));
    assert_eq!(set.into_inner(), Some("123".to_owned()));
}

#[test]
fn get_job_from_raw() {
    let req = GetJob::from_raw("abc1");
    assert_eq!(req.shortcode, ShortCode::from_text("abc1"));
    assert!(!req.password.has_password());
    assert!(req.may_view(&Password::default()));
    assert!(!req.may_view(&Password::from_option(Some("123".to_owned()))));
}

#[test]
fn short_code_conversions() {
    let c = ShortCode::from_string("xyz9".to_owned());
    assert_eq!(c.as_str(), "xyz9");
    assert_eq!(c.duplicate(), c);
    assert_ne!(c, ShortCode::from_text("xyz8"));
    assert_eq!(c.into_inner(), "xyz9".to_owned());
}

#[test]
fn revocation_and_key_count() {
    assert_eq!(RevocationStatus::from_rows_affected(0), RevocationStatus::NotFound);
    assert_eq!(RevocationStatus::from_rows_affected(1), RevocationStatus::Revoked);
    assert!(!key_count_is_valid(0));
    assert!(key_count_is_valid(3));
}
