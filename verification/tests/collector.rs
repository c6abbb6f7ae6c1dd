use quicksys::cascade::{CascadeConfig, DetectionCascade, ProbeOutcome};
use quicksys::cli::Cli;
use quicksys::collector::{embed_detection, Collector};
use quicksys::detection::{DetectionRecord, PartialEvidence, SourceTag, VariantTag};
use quicksys::document::{Document, Number};
use quicksys::http::{get_all_info, get_info_by_path};
use quicksys::models::{
    AppsInfo, CollectorInfo, CpuInfo, DeviceInfo, DiskInfo, MemoryInfo, NetworkInfo, OsInfo,
    SystemInfo, TallyInfo,
};
use quicksys::utils::timeout_duration;

fn text(s: &str) -> Document {
    Document::Text(s.to_string())
}

fn mapping(entries: Vec<(&str, Document)>) -> Document {
    Document::Mapping(entries.into_iter().map(|(k, v)| (k.to_string(), v)).collect())
}

#[test]
fn new_collector_has_the_defaults() {
    let collector = Collector::new(500);
    assert_eq!(collector.timeout_ms(), 500);
    assert!(collector.tally_enabled());
    assert_eq!(collector.tally_http_endpoint(), Some(&"127.0.0.1:9000".to_string()));
}

#[test]
fn collector_setters_change_one_setting() {
    let mut collector = Collector::new(250);
    collector.disable_tally_detection();
    assert!(!collector.tally_enabled());
    assert_eq!(collector.timeout_ms(), 250);
    collector.set_tally_http_endpoint("10.0.0.1:9999".to_string());
    assert_eq!(collector.tally_http_endpoint(), Some(&"10.0.0.1:9999".to_string()));
    assert!(!collector.tally_enabled());
}

#[test]
fn collector_from_cli_follows_the_options() {
    let cli = Cli::default();
    assert_eq!(cli.timeout_ms, 500);
    assert_eq!(Collector::from_cli(&cli), Collector::new(500));
    let cli = Cli {
        no_tally: true,
        tally_http: Some("host:1".to_string()),
        timeout_ms: 75,
        ..Cli::default()
    };
    let collector = Collector::from_cli(&cli);
    assert!(!collector.tally_enabled());
    assert_eq!(collector.timeout_ms(), 75);
    assert_eq!(collector.tally_http_endpoint(), Some(&"host:1".to_string()));
}

#[test]
fn cascade_config_follows_the_settings() {
    let mut collector = Collector::new(300);
    assert_eq!(
        collector.cascade_config(true, false),
        Some(CascadeConfig { total_budget_ms: 300, network_probe: true, database_probe: false })
    );
    assert_eq!(
        collector.cascade_config(false, true),
        Some(CascadeConfig { total_budget_ms: 300, network_probe: false, database_probe: true })
    );
    collector.disable_tally_detection();
    assert_eq!(collector.cascade_config(true, true), None);
}

#[test]
fn timeout_duration_counts_milliseconds() {
    assert_eq!(timeout_duration(1500).as_millis(), 1500);
    assert_eq!(timeout_duration(1500).subsec_nanos(), 500_000_000);
    assert_eq!(timeout_duration(0).as_millis(), 0);
    assert_eq!(timeout_duration(0).subsec_nanos(), 0);
    assert_eq!(timeout_duration(2_569).as_secs(), 2);
    assert_eq!(timeout_duration(2_569).subsec_nanos(), 569_000_000);
    assert_eq!(timeout_duration(u64::MAX).as_millis(), u64::MAX as u128);
    assert_eq!(timeout_duration(u64::MAX).subsec_nanos(), 615_000_000);
    assert_eq!(timeout_duration(7).as_nanos(), 7_000_000);
}

#[test]
fn filter_fields_parses_and_projects() {
    let collector = Collector::new(500);
    let doc = mapping(vec![
        ("os", mapping(vec![("family", text("Windows")), ("arch", text("x86_64"))])),
        ("cpu", mapping(vec![("name", text("CPU"))])),
    ]);
    let out = collector.filter_fields(doc, " os.family , cpu ,missing".to_string());
    assert_eq!(
        out,
        mapping(vec![
            ("os", mapping(vec![("family", text("Windows"))])),
            ("cpu", mapping(vec![("name", text("CPU"))])),
        ])
    );
}

#[test]
fn add_metadata_signs_a_mapping() {
    let collector = Collector::new(500);
    let mut doc = mapping(vec![("os", Document::Null)]);
    collector.add_metadata(&mut doc, 42);
    assert_eq!(
        doc,
        mapping(vec![
            ("os", Document::Null),
            (
                "collector",
                mapping(vec![
                    ("name", text("QuickSys")),
                    ("version", text("0.1.0")),
                    ("duration_ms", Document::Number(Number::Unsigned(42))),
                ])
            ),
        ])
    );
    collector.add_metadata(&mut doc, 43);
    assert_eq!(
        get_info_by_path(&doc, "collector.duration_ms"),
        Document::Number(Number::Unsigned(43))
    );
    let mut scalar = text("not a mapping");
    collector.add_metadata(&mut scalar, 1);
    assert_eq!(scalar, text("not a mapping"));
}

#[test]
fn end_to_end_detection_embedded_and_projected() {
    let record = DetectionCascade::replay(
        CascadeConfig { total_budget_ms: 500, network_probe: true, database_probe: false },
        vec![
            ProbeOutcome {
                evidence: Some(PartialEvidence {
                    installed: true,
                    variant: Some(VariantTag::Prime),
                    version: Some("2.0".to_string()),
                    edition: None,
                    install_path: Some("C:\\TallyPrime".to_string()),
                }),
                elapsed_ms: 1,
            },
            ProbeOutcome {
                evidence: Some(PartialEvidence {
                    installed: true,
                    variant: None,
                    version: Some("3.0.1".to_string()),
                    edition: None,
                    install_path: None,
                }),
                elapsed_ms: 10,
            },
        ],
    );
    let mut doc = mapping(vec![("apps", Document::new_mapping())]);
    embed_detection(&mut doc, &record);
    let collector = Collector::new(500);
    let out = collector.filter_fields(doc, "apps.tally.installed,apps.tally.version".to_string());
    assert_eq!(
        out,
        mapping(vec![(
            "apps",
            mapping(vec![(
                "tally",
                mapping(vec![("installed", Document::Boolean(true)), ("version", text("3.0.1"))])
            )])
        )])
    );
}

#[test]
fn detection_record_document_names_variant_and_source() {
    let record = DetectionRecord {
        installed: true,
        variant: VariantTag::Erp,
        version: Some("6.6".to_string()),
        edition: Some("Gold".to_string()),
        install_path: Some("C:\\ERP9".to_string()),
        source: Some(SourceTag::Database),
    };
    assert_eq!(
        record.to_document(),
        mapping(vec![
            ("installed", Document::Boolean(true)),
            ("variant", text("TallyERP9")),
            ("version", text("6.6")),
            ("edition", text("Gold")),
            ("install_path", text("C:\\ERP9")),
            ("detection_source", text("odbc")),
        ])
    );
    assert_eq!(
        DetectionRecord::absent().to_document(),
        mapping(vec![("installed", Document::Boolean(false))])
    );
}

#[test]
fn tally_info_from_record_labels_every_source_and_variant() {
    let labels = [
        (SourceTag::RegistryUninstall, "registry_uninstall"),
        (SourceTag::VendorRegistry, "registry_vendor"),
        (SourceTag::FilesystemPath, "file_version"),
        (SourceTag::NetworkProtocol, "http"),
        (SourceTag::Database, "odbc"),
    ];
    for (source, label) in labels {
        let record = DetectionRecord {
            installed: true,
            variant: VariantTag::Prime,
            version: None,
            edition: None,
            install_path: None,
            source: Some(source),
        };
        let info = TallyInfo::from_record(&record);
        assert_eq!(info.detection_source, Some(label.to_string()));
        assert_eq!(info.variant, Some("TallyPrime".to_string()));
    }
    let generic = DetectionRecord {
        installed: true,
        variant: VariantTag::Generic("Tally Developer".to_string()),
        version: None,
        edition: None,
        install_path: None,
        source: Some(SourceTag::VendorRegistry),
    };
    assert_eq!(TallyInfo::from_record(&generic).variant, Some("Tally Developer".to_string()));
    assert_eq!(TallyInfo::from_record(&DetectionRecord::absent()), TallyInfo::default());
}

#[test]
fn system_info_document_skips_unset_fields() {
    let info = SystemInfo {
        collector: Some(CollectorInfo { name: "QuickSys".to_string(), version: "0.1.0".to_string(), duration_ms: 7 }),
        os: Some(OsInfo { family: "Windows".to_string(), build: Some("19045".to_string()), ..OsInfo::default() }),
        device: Some(DeviceInfo { hostname: Some("host".to_string()), ..DeviceInfo::default() }),
        cpu: Some(CpuInfo { name: Some("CPU".to_string()), logical_cores: Some(8), ..CpuInfo::default() }),
        memory: Some(MemoryInfo { installed_mb: Some(16384), available_mb: None }),
        disks: Some(vec![DiskInfo {
            drive_letter: Some("C:".to_string()),
            fs_type: Some("NTFS".to_string()),
            total_gb: Some(Number::Real(500.0f64.to_bits())),
            free_gb: None,
        }]),
        network: Some(vec![NetworkInfo {
            interface_name: Some("Ethernet".to_string()),
            mac_address: None,
            ipv4_addresses: Some(vec!["192.168.1.100".to_string()]),
            ipv6_addresses: None,
        }]),
        apps: Some(AppsInfo { tally: None }),
    };
    assert_eq!(
        info.to_document(),
        mapping(vec![
            (
                "collector",
                mapping(vec![
                    ("name", text("QuickSys")),
                    ("version", text("0.1.0")),
                    ("duration_ms", Document::Number(Number::Unsigned(7))),
                ])
            ),
            ("os", mapping(vec![("family", text("Windows")), ("build", text("19045"))])),
            ("device", mapping(vec![("hostname", text("host"))])),
            (
                "cpu",
                mapping(vec![
                    ("name", text("CPU")),
                    ("logical_cores", Document::Number(Number::Unsigned(8))),
                ])
            ),
            ("memory", mapping(vec![("installed_mb", Document::Number(Number::Unsigned(16384)))])),
            (
                "disks",
                Document::Sequence(vec![mapping(vec![
                    ("drive_letter", text("C:")),
                    ("fs_type", text("NTFS")),
                    ("total_gb", Document::Number(Number::Real(0x407F_4000_0000_0000))),
                ])])
            ),
            (
                "network",
                Document::Sequence(vec![mapping(vec![
                    ("interface_name", text("Ethernet")),
                    ("ipv4_addresses", Document::Sequence(vec![text("192.168.1.100")])),
                ])])
            ),
            ("apps", Document::new_mapping()),
        ])
    );
    assert_eq!(SystemInfo::default().to_document(), Document::new_mapping());
}

#[test]
fn endpoint_answers_whole_document_and_paths() {
    let doc = mapping(vec![
        ("os", mapping(vec![("family", text("Windows"))])),
        ("", mapping(vec![("", text("empty keys"))])),
        ("list", Document::Sequence(vec![text("a")])),
    ]);
    assert_eq!(get_all_info(&doc), doc);
    assert_eq!(get_info_by_path(&doc, "os.family"), text("Windows"));
    assert_eq!(get_info_by_path(&doc, "os"), mapping(vec![("family", text("Windows"))]));
    assert_eq!(get_info_by_path(&doc, "os.family.x"), Document::new_mapping());
    assert_eq!(get_info_by_path(&doc, "nope"), Document::new_mapping());
    assert_eq!(get_info_by_path(&doc, " os"), Document::new_mapping());
    assert_eq!(get_info_by_path(&doc, "."), text("empty keys"));
    assert_eq!(get_info_by_path(&doc, "list.0"), Document::new_mapping());
}

#[test]
fn documents_compare_and_copy_deeply() {
    let doc = mapping(vec![(
        "a",
        Document::Sequence(vec![Document::Null, Document::Boolean(true), mapping(vec![("b", text("c"))])]),
    )]);
    let copy = doc.clone();
    assert_eq!(copy, doc);
    assert!(doc.is_mapping());
    assert!(!text("x").is_mapping());
    assert_eq!(doc.get(&"a".to_string()).is_some(), true);
    assert_eq!(doc.get(&"b".to_string()), None);
    assert_eq!(text("x").get(&"a".to_string()), None);
}

#[test]
fn insert_keeps_first_insertion_order() {
    let mut doc = Document::new_mapping();
    doc.insert("b".to_string(), text("1"));
    doc.insert("a".to_string(), text("2"));
    doc.insert("b".to_string(), text("3"));
    assert_eq!(doc, mapping(vec![("b", text("3")), ("a", text("2"))]));
    let mut scalar = Document::Number(Number::Signed(-1));
    scalar.insert("k".to_string(), Document::Null);
    assert_eq!(scalar, mapping(vec![("k", Document::Null)]));
}

#[test]
fn collect_puts_the_detection_record_under_apps() {
    let record = DetectionRecord {
        installed: true,
        variant: VariantTag::Prime,
        version: Some("3.0.1".to_string()),
        edition: None,
        install_path: None,
        source: Some(SourceTag::RegistryUninstall),
    };
    let records = SystemInfo {
        os: Some(OsInfo { family: "Windows".to_string(), ..OsInfo::default() }),
        apps: Some(AppsInfo { tally: None }),
        ..SystemInfo::default()
    };
    let mut collector = Collector::new(500);
    assert_eq!(
        collector.collect(records.clone(), Some(&record)),
        mapping(vec![
            ("os", mapping(vec![("family", text("Windows"))])),
            (
                "apps",
                mapping(vec![(
                    "tally",
                    mapping(vec![
                        ("installed", Document::Boolean(true)),
                        ("variant", text("TallyPrime")),
                        ("version", text("3.0.1")),
                        ("detection_source", text("registry_uninstall")),
                    ])
                )])
            ),
        ])
    );
    let without = mapping(vec![("os", mapping(vec![("family", text("Windows"))]))]);
    assert_eq!(collector.collect(records.clone(), None), without);
    collector.disable_tally_detection();
    assert_eq!(collector.collect(records.clone(), Some(&record)), without);
}

#[test]
fn collect_with_detection_off_reports_no_detection() {
    let records = SystemInfo {
        os: Some(OsInfo { family: "Windows".to_string(), ..OsInfo::default() }),
        apps: Some(AppsInfo {
            tally: Some(TallyInfo {
                installed: true,
                variant: Some("TallyPrime".to_string()),
                version: Some("3.0.1".to_string()),
                ..TallyInfo::default()
            }),
        }),
        ..SystemInfo::default()
    };
    let record = DetectionRecord::adopt(
        SourceTag::VendorRegistry,
        PartialEvidence {
            installed: true,
            variant: Some(VariantTag::Erp),
            version: None,
            edition: None,
            install_path: None,
        },
    );
    let mut collector = Collector::new(500);
    collector.disable_tally_detection();
    let out = collector.collect(records.clone(), Some(&record));
    assert_eq!(out, mapping(vec![("os", mapping(vec![("family", text("Windows"))]))]));
    assert_eq!(out.get(&"apps".to_string()), None);
    assert_eq!(get_info_by_path(&out, "apps.tally.installed"), Document::new_mapping());
    let collector = Collector::new(500);
    let out = collector.collect(records, Some(&record));
    assert_eq!(get_info_by_path(&out, "apps.tally.installed"), Document::Boolean(true));
    assert_eq!(get_info_by_path(&out, "apps.tally.variant"), text("TallyERP9"));
    assert_eq!(get_info_by_path(&out, "apps.tally.version"), Document::new_mapping());
}
