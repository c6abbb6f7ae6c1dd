use quicksys::cascade::{
    probe_timeout, CascadeConfig, DetectionCascade, ProbeOutcome, ProbeRequest,
    NETWORK_PROBE_CEILING_MS,
};
use quicksys::detection::{DetectionRecord, PartialEvidence, SourceTag, VariantTag};

fn config(total_budget_ms: u64, network: bool, database: bool) -> CascadeConfig {
    CascadeConfig { total_budget_ms, network_probe: network, database_probe: database }
}

fn found(variant: VariantTag, version: &str, path: &str) -> PartialEvidence {
    PartialEvidence {
        installed: true,
        variant: Some(variant),
        version: Some(version.to_string()),
        edition: None,
        install_path: Some(path.to_string()),
    }
}

fn outcome(evidence: Option<PartialEvidence>, elapsed_ms: u64) -> ProbeOutcome {
    ProbeOutcome { evidence, elapsed_ms }
}

fn only_version(version: &str) -> PartialEvidence {
    PartialEvidence {
        installed: true,
        variant: None,
        version: Some(version.to_string()),
        edition: None,
        install_path: None,
    }
}

#[test]
fn cascade_starts_with_the_uninstall_registry() {
    let cascade = DetectionCascade::start(config(500, true, true));
    assert_eq!(
        cascade.next_probe(),
        Some(ProbeRequest { source: SourceTag::RegistryUninstall, timeout_ms: 500 })
    );
    assert!(!cascade.is_finished());
    assert_eq!(cascade.record(), &DetectionRecord::absent());
}

#[test]
fn precedence_first_positive_wins_the_baseline() {
    let record = DetectionCascade::replay(
        config(500, false, false),
        vec![
            outcome(Some(found(VariantTag::Prime, "4.0", "C:\\Prime")), 0),
            outcome(None, 0),
            outcome(Some(found(VariantTag::Erp, "9.0", "C:\\ERP9")), 0),
        ],
    );
    assert!(record.installed);
    assert_eq!(record.variant, VariantTag::Prime);
    assert_eq!(record.version, Some("4.0".to_string()));
    assert_eq!(record.install_path, Some("C:\\Prime".to_string()));
    assert_eq!(record.source, Some(SourceTag::RegistryUninstall));
}

#[test]
fn mandatory_sources_are_asked_in_order_until_one_finds_the_product() {
    let mut cascade = DetectionCascade::start(config(500, true, true));
    cascade.report(outcome(None, 0));
    assert_eq!(cascade.next_probe().map(|r| r.source), Some(SourceTag::VendorRegistry));
    cascade.report(outcome(
        Some(PartialEvidence {
            installed: false,
            variant: None,
            version: None,
            edition: None,
            install_path: None,
        }),
        0,
    ));
    assert_eq!(cascade.next_probe().map(|r| r.source), Some(SourceTag::FilesystemPath));
    cascade.report(outcome(Some(found(VariantTag::Erp, "Unknown", "C:\\ERP9")), 0));
    assert_eq!(cascade.next_probe().map(|r| r.source), Some(SourceTag::NetworkProtocol));
    assert_eq!(cascade.record().source, Some(SourceTag::FilesystemPath));
    assert_eq!(cascade.record().variant, VariantTag::Erp);
}

#[test]
fn nothing_found_ends_the_cascade_before_the_optional_sources() {
    let mut cascade = DetectionCascade::start(config(500, true, true));
    cascade.report(outcome(None, 1));
    cascade.report(outcome(None, 1));
    cascade.report(outcome(None, 1));
    assert!(cascade.is_finished());
    assert_eq!(cascade.next_probe(), None);
    assert_eq!(cascade.into_record(), DetectionRecord::absent());
}

#[test]
fn override_not_reset() {
    let record = DetectionCascade::replay(
        config(500, true, false),
        vec![
            outcome(Some(found(VariantTag::Prime, "2.1", "C:\\Prime")), 0),
            outcome(Some(only_version("3.0.1")), 20),
        ],
    );
    assert!(record.installed);
    assert_eq!(record.variant, VariantTag::Prime);
    assert_eq!(record.version, Some("3.0.1".to_string()));
    assert_eq!(record.install_path, Some("C:\\Prime".to_string()));
    assert_eq!(record.source, Some(SourceTag::NetworkProtocol));
}

#[test]
fn no_false_negative_from_optional_probes() {
    let baseline = found(VariantTag::Erp, "9.6", "C:\\ERP9");
    let record = DetectionCascade::replay(
        config(500, true, true),
        vec![outcome(Some(baseline.clone()), 0), outcome(None, 200), outcome(None, 300)],
    );
    assert_eq!(record, DetectionRecord::adopt(SourceTag::RegistryUninstall, baseline));
}

#[test]
fn optional_evidence_of_absence_does_not_reset_the_record() {
    let baseline = found(VariantTag::Erp, "9.6", "C:\\ERP9");
    let absent = PartialEvidence {
        installed: false,
        variant: None,
        version: None,
        edition: None,
        install_path: Some("D:\\elsewhere".to_string()),
    };
    let record = DetectionCascade::replay(
        config(500, true, false),
        vec![outcome(Some(baseline.clone()), 0), outcome(Some(absent), 10)],
    );
    assert_eq!(record, DetectionRecord::adopt(SourceTag::RegistryUninstall, baseline));
}

#[test]
fn optional_probe_sets_edition_and_variant() {
    let record = DetectionCascade::replay(
        config(500, true, true),
        vec![
            outcome(Some(found(VariantTag::Generic("Tally".to_string()), "1", "C:\\T")), 0),
            outcome(
                Some(PartialEvidence {
                    installed: true,
                    variant: Some(VariantTag::Prime),
                    version: None,
                    edition: Some("Gold".to_string()),
                    install_path: Some("ignored".to_string()),
                }),
                5,
            ),
            outcome(Some(only_version("4.1")), 5),
        ],
    );
    assert_eq!(record.variant, VariantTag::Prime);
    assert_eq!(record.edition, Some("Gold".to_string()));
    assert_eq!(record.version, Some("4.1".to_string()));
    assert_eq!(record.install_path, Some("C:\\T".to_string()));
    assert_eq!(record.source, Some(SourceTag::Database));
}

#[test]
fn baseline_does_not_take_an_edition() {
    let mut evidence = found(VariantTag::Prime, "1", "C:\\T");
    evidence.edition = Some("Silver".to_string());
    let record = DetectionRecord::adopt(SourceTag::VendorRegistry, evidence);
    assert_eq!(record.edition, None);
    assert_eq!(record.source, Some(SourceTag::VendorRegistry));
}

#[test]
fn baseline_without_variant_is_unknown() {
    let record = DetectionRecord::adopt(
        SourceTag::FilesystemPath,
        PartialEvidence {
            installed: true,
            variant: None,
            version: None,
            edition: None,
            install_path: None,
        },
    );
    assert_eq!(record.variant, VariantTag::Unknown);
    assert!(record.installed);
}

#[test]
fn refine_leaves_an_absent_record_alone() {
    let mut record = DetectionRecord::absent();
    record.refine(SourceTag::NetworkProtocol, only_version("3.0.1"));
    assert_eq!(record, DetectionRecord::absent());
}

#[test]
fn refine_without_fields_keeps_the_source() {
    let mut record =
        DetectionRecord::adopt(SourceTag::RegistryUninstall, found(VariantTag::Prime, "1", "p"));
    let before = record.clone();
    record.refine(
        SourceTag::NetworkProtocol,
        PartialEvidence {
            installed: true,
            variant: None,
            version: None,
            edition: None,
            install_path: Some("other".to_string()),
        },
    );
    assert_eq!(record, before);
}

#[test]
fn network_probe_is_bounded_by_its_ceiling() {
    let mut cascade = DetectionCascade::start(config(500, true, true));
    cascade.report(outcome(Some(found(VariantTag::Prime, "1", "p")), 0));
    assert_eq!(
        cascade.next_probe(),
        Some(ProbeRequest { source: SourceTag::NetworkProtocol, timeout_ms: 200 })
    );
    cascade.report(outcome(None, 200));
    assert_eq!(
        cascade.next_probe(),
        Some(ProbeRequest { source: SourceTag::Database, timeout_ms: 300 })
    );
    cascade.report(outcome(None, 300));
    assert!(cascade.is_finished());
}

#[test]
fn network_probe_is_bounded_by_what_is_left() {
    let mut cascade = DetectionCascade::start(config(50, true, true));
    cascade.report(outcome(None, 10));
    cascade.report(outcome(Some(found(VariantTag::Prime, "1", "p")), 10));
    assert_eq!(
        cascade.next_probe(),
        Some(ProbeRequest { source: SourceTag::NetworkProtocol, timeout_ms: 30 })
    );
}

#[test]
fn budget_bound_exhausted_budget_ends_the_cascade() {
    let mut cascade = DetectionCascade::start(config(50, true, true));
    cascade.report(outcome(Some(found(VariantTag::Prime, "1", "p")), 0));
    assert_eq!(
        cascade.next_probe(),
        Some(ProbeRequest { source: SourceTag::NetworkProtocol, timeout_ms: 50 })
    );
    cascade.report(outcome(Some(only_version("3.0.1")), 50));
    assert!(cascade.is_finished());
    assert_eq!(cascade.record().version, Some("3.0.1".to_string()));
}

#[test]
fn zero_budget_still_asks_the_mandatory_sources() {
    let mut cascade = DetectionCascade::start(config(0, true, true));
    assert_eq!(
        cascade.next_probe(),
        Some(ProbeRequest { source: SourceTag::RegistryUninstall, timeout_ms: 0 })
    );
    cascade.report(outcome(Some(found(VariantTag::Prime, "1", "p")), 0));
    assert!(cascade.is_finished());
    assert!(cascade.record().installed);
}

#[test]
fn unavailable_optional_sources_are_skipped() {
    let mut cascade = DetectionCascade::start(config(500, false, true));
    cascade.report(outcome(Some(found(VariantTag::Prime, "1", "p")), 0));
    assert_eq!(cascade.next_probe().map(|r| r.source), Some(SourceTag::Database));
    let mut cascade = DetectionCascade::start(config(500, false, false));
    cascade.report(outcome(Some(found(VariantTag::Prime, "1", "p")), 0));
    assert!(cascade.is_finished());
}

#[test]
fn reports_after_the_end_are_ignored() {
    let mut cascade = DetectionCascade::start(config(500, false, false));
    cascade.report(outcome(Some(found(VariantTag::Prime, "1", "p")), 0));
    let before = cascade.record().clone();
    cascade.report(outcome(Some(found(VariantTag::Erp, "2", "q")), 0));
    assert_eq!(cascade.record(), &before);
}

#[test]
fn probe_timeout_is_the_smaller_of_budget_and_ceiling() {
    let c = config(1000, true, true);
    assert_eq!(NETWORK_PROBE_CEILING_MS, 200);
    assert_eq!(probe_timeout(&c, SourceTag::NetworkProtocol, 1000), 200);
    assert_eq!(probe_timeout(&c, SourceTag::NetworkProtocol, 150), 150);
    assert_eq!(probe_timeout(&c, SourceTag::Database, 700), 700);
    assert_eq!(probe_timeout(&c, SourceTag::RegistryUninstall, 1000), 1000);
}

#[test]
fn source_tags_know_their_tier() {
    assert!(SourceTag::RegistryUninstall.mandatory());
    assert!(SourceTag::VendorRegistry.mandatory());
    assert!(SourceTag::FilesystemPath.mandatory());
    assert!(!SourceTag::NetworkProtocol.mandatory());
    assert!(!SourceTag::Database.mandatory());
}

#[test]
fn replay_ignores_outcomes_behind_the_end() {
    let record = DetectionCascade::replay(
        config(500, false, false),
        vec![
            outcome(None, 0),
            outcome(None, 0),
            outcome(None, 0),
            outcome(Some(found(VariantTag::Prime, "1", "p")), 0),
        ],
    );
    assert_eq!(record, DetectionRecord::absent());
    assert_eq!(DetectionCascade::replay(config(500, true, true), Vec::new()), DetectionRecord::absent());
}

#[test]
fn budget_bound_time_spent_stays_within_budget_and_slack() {
    let total = 50u64;
    let mut cascade = DetectionCascade::start(config(total, true, true));
    let mut spent = 0u64;
    let mut steps = vec![
        outcome(None, 0),
        outcome(Some(found(VariantTag::Prime, "1", "p")), 0),
        outcome(None, 0),
        outcome(None, 0),
    ];
    steps.reverse();
    while let Some(request) = cascade.next_probe() {
        let mut next = steps.pop().unwrap();
        if !request.source.mandatory() {
            assert!(request.timeout_ms <= total - spent);
            assert!(request.timeout_ms <= NETWORK_PROBE_CEILING_MS.max(total));
            next.elapsed_ms = request.timeout_ms;
        }
        spent += next.elapsed_ms;
        cascade.report(next);
    }
    assert!(spent <= total);
    assert!(cascade.record().installed);
}
