use lso::pipeline::{
    acmi_published, after_json_publication, ensure_created, JsonPublicationStep, Publication,
    RecoveryClaims, ReportPipeline,
};

#[test]
fn recovery_id_claim_is_independent_of_display_filename() {
    let mut claims = RecoveryClaims::new();
    let first = ReportPipeline::new("/tmp/lso-claim", "first-name".to_string());
    let second = ReportPipeline::new("/tmp/lso-claim", "other-name".to_string());
    let mut winner = first
        .claim_recovery(&mut claims, "same-recovery-id")
        .unwrap();
    assert!(second
        .claim_recovery(&mut claims, "same-recovery-id")
        .is_none());
    winner.commit();
    winner.release(&mut claims);
    assert!(second
        .claim_recovery(&mut claims, "same-recovery-id")
        .is_none());
}

#[test]
fn an_uncommitted_claim_gives_the_recovery_back() {
    let mut claims = RecoveryClaims::new();
    let pipeline = ReportPipeline::new("/tmp/lso-release", "name".to_string());
    let claim = pipeline.claim_recovery(&mut claims, "r-1").unwrap();
    claim.release(&mut claims);
    assert!(pipeline.claim_recovery(&mut claims, "r-1").is_some());
}

#[test]
fn claims_are_scoped_to_their_directory() {
    let mut claims = RecoveryClaims::new();
    let here = ReportPipeline::new("/tmp/lso-a", "name".to_string());
    let there = ReportPipeline::new("/tmp/lso-b", "name".to_string());
    assert!(here.claim_recovery(&mut claims, "r-1").is_some());
    assert!(there.claim_recovery(&mut claims, "r-1").is_some());
    assert!(here.claim_recovery(&mut claims, "r-2").is_some());
}

#[test]
fn artifact_paths_use_the_report_filename() {
    let pipeline = ReportPipeline::new("/tmp/x", "a".to_string());
    assert_eq!(pipeline.json_path(), "/tmp/x/a.json");
    assert_eq!(pipeline.acmi_path(), "/tmp/x/a.zip.acmi");
    let dotted = ReportPipeline::new("/tmp/x", "20240101-120000.old".to_string());
    assert_eq!(dotted.json_path(), "/tmp/x/20240101-120000.json");
}

#[test]
fn an_existing_artifact_is_never_replaced() {
    assert_eq!(ensure_created("/tmp/x/a.json", Publication::Created), Ok(()));
    assert_eq!(
        ensure_created("/tmp/x/a.json", Publication::AlreadyExists),
        Err("refusing to replace previously published artifact `/tmp/x/a.json`".to_string())
    );
}

#[test]
fn one_directory_spelled_two_ways_is_claimed_once() {
    let mut claims = RecoveryClaims::new();
    let plain = ReportPipeline::new("/out", "first".to_string());
    let slashed = ReportPipeline::new("/out/", "second".to_string());
    let dotted = ReportPipeline::new("/out/./", "third".to_string());
    let doubled = ReportPipeline::new("//out", "fourth".to_string());
    assert!(plain.claim_recovery(&mut claims, "r-1").is_some());
    assert!(slashed.claim_recovery(&mut claims, "r-1").is_none());
    assert!(dotted.claim_recovery(&mut claims, "r-1").is_none());
    assert!(slashed.claim_recovery(&mut claims, "r-2").is_some());
    assert!(plain.claim_recovery(&mut claims, "r-2").is_none());
    assert!(doubled.claim_recovery(&mut claims, "r-2").is_none());
}

#[test]
fn only_the_creator_of_the_json_report_goes_on() {
    let mut claims = RecoveryClaims::new();
    let pipeline = ReportPipeline::new("/tmp/lso-gate", "name".to_string());

    let mut claim = pipeline.claim_recovery(&mut claims, "created").unwrap();
    assert_eq!(
        after_json_publication(Some(Publication::Created), &mut claim),
        JsonPublicationStep::Continue
    );
    claim.release(&mut claims);
    assert!(pipeline.claim_recovery(&mut claims, "created").is_none());

    let mut claim = pipeline.claim_recovery(&mut claims, "exists").unwrap();
    assert_eq!(
        after_json_publication(Some(Publication::AlreadyExists), &mut claim),
        JsonPublicationStep::Stop
    );
    claim.release(&mut claims);
    assert!(pipeline.claim_recovery(&mut claims, "exists").is_none());

    let mut claim = pipeline.claim_recovery(&mut claims, "failed").unwrap();
    assert_eq!(after_json_publication(None, &mut claim), JsonPublicationStep::Fail);
    claim.release(&mut claims);
    assert!(pipeline.claim_recovery(&mut claims, "failed").is_some());
}

#[test]
fn only_a_created_acmi_file_is_reported() {
    assert!(acmi_published(Some(Publication::Created)));
    assert!(!acmi_published(Some(Publication::AlreadyExists)));
    assert!(!acmi_published(None));
}
