use quicksys::document::{Document, Number};
use quicksys::fields::{arch_name, bytes_to_mb, format_mac, mask_product_id, trimmed};
use quicksys::models::NetworkInfo;

fn text(s: &str) -> Document {
    Document::Text(s.to_string())
}

fn mapping(entries: Vec<(&str, Document)>) -> Document {
    Document::Mapping(entries.into_iter().map(|(k, v)| (k.to_string(), v)).collect())
}

#[test]
fn mac_is_written_in_upper_case_hex_with_colons() {
    assert_eq!(format_mac(&[0x00, 0x1a, 0x2B, 0xff, 0x09, 0xa0]), "00:1A:2B:FF:09:A0");
    assert_eq!(format_mac(&[0x7f]), "7F");
    assert_eq!(format_mac(&[]), "");
}

#[test]
fn mac_agrees_with_the_hex_format_for_every_byte() {
    for byte in 0u8..=255 {
        assert_eq!(format_mac(&[byte, byte]), format!("{:02X}:{:02X}", byte, byte));
    }
}

#[test]
fn product_id_is_masked_beyond_eight_characters() {
    assert_eq!(mask_product_id("00330-80000-00000-AA123"), "00330...");
    assert_eq!(mask_product_id("123456789"), "12345...");
    assert_eq!(mask_product_id("12345678"), "12345678");
    assert_eq!(mask_product_id(""), "");
}

#[test]
fn architectures_have_names() {
    assert_eq!(arch_name(9), "x86_64");
    assert_eq!(arch_name(12), "arm64");
    assert_eq!(arch_name(0), "x86");
    assert_eq!(arch_name(5), "arm");
    assert_eq!(arch_name(6), "unknown");
    assert_eq!(arch_name(0xffff), "unknown");
}

#[test]
fn bytes_are_counted_in_whole_mebibytes() {
    assert_eq!(bytes_to_mb(0), 0);
    assert_eq!(bytes_to_mb(1_048_575), 0);
    assert_eq!(bytes_to_mb(1_048_576), 1);
    assert_eq!(bytes_to_mb(17_179_869_184), 16_384);
    assert_eq!(bytes_to_mb(u64::MAX), 17_592_186_044_415);
}

#[test]
fn trimmed_drops_white_space_at_both_ends() {
    assert_eq!(trimmed("  Intel(R) Core(TM) i7 \t\n"), "Intel(R) Core(TM) i7");
    assert_eq!(trimmed("\u{3000}a b\u{A0}"), "a b");
    assert_eq!(trimmed("   "), "");
    assert_eq!(trimmed(""), "");
    assert_eq!(trimmed("x"), "x");
}

#[test]
fn interface_needs_a_name_and_an_address() {
    let mut info = NetworkInfo::default();
    assert!(!info.is_reportable());
    info.interface_name = Some("Ethernet".to_string());
    assert!(!info.is_reportable());
    info.mac_address = Some("00:00:00:00:00:00".to_string());
    assert!(!info.is_reportable());
    info.ipv6_addresses = Some(vec!["fe80::1".to_string()]);
    assert!(info.is_reportable());
    info.interface_name = None;
    assert!(!info.is_reportable());
    info.interface_name = Some("Ethernet".to_string());
    info.ipv6_addresses = None;
    info.ipv4_addresses = Some(vec!["10.0.0.1".to_string()]);
    assert!(info.is_reportable());
}

#[test]
fn well_formed_documents_have_unique_keys() {
    assert!(Document::Null.is_well_formed());
    assert!(Document::new_mapping().is_well_formed());
    assert!(mapping(vec![("a", text("1")), ("b", text("2"))]).is_well_formed());
    assert!(!mapping(vec![("a", text("1")), ("b", text("2")), ("a", text("3"))]).is_well_formed());
    assert!(!mapping(vec![("a", text("1")), ("a", text("1"))]).is_well_formed());
    let nested_bad = mapping(vec![(
        "x",
        Document::Sequence(vec![
            Document::Number(Number::Unsigned(1)),
            mapping(vec![("k", Document::Null), ("k", Document::Null)]),
        ]),
    )]);
    assert!(!nested_bad.is_well_formed());
    let nested_good = mapping(vec![(
        "x",
        Document::Sequence(vec![mapping(vec![("k", Document::Null)]), mapping(vec![("k", Document::Null)])]),
    )]);
    assert!(nested_good.is_well_formed());
}
