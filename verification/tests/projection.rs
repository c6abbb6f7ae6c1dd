use quicksys::document::{Document, Number};
use quicksys::utils::{filter_json_fields, get_value_at_path, insert_at_path, parse_field_selector};

fn text(s: &str) -> Document {
    Document::Text(s.to_string())
}

fn mapping(entries: Vec<(&str, Document)>) -> Document {
    Document::Mapping(entries.into_iter().map(|(k, v)| (k.to_string(), v)).collect())
}

fn path(segments: &[&str]) -> Vec<String> {
    segments.iter().map(|s| s.to_string()).collect()
}

#[test]
fn parse_splits_on_commas_and_dots() {
    assert_eq!(
        parse_field_selector("os,cpu,apps.tally"),
        vec![path(&["os"]), path(&["cpu"]), path(&["apps", "tally"])]
    );
}

#[test]
fn parse_trims_every_segment() {
    assert_eq!(
        parse_field_selector("  os , apps . tally .version "),
        vec![path(&["os"]), path(&["apps", "tally", "version"])]
    );
}

#[test]
fn parse_gives_empty_selector_for_empty_field() {
    assert_eq!(
        parse_field_selector("a,,b,"),
        vec![path(&["a"]), path(&[]), path(&["b"]), path(&[])]
    );
    assert_eq!(parse_field_selector(""), vec![path(&[])]);
    assert_eq!(parse_field_selector("  \t "), vec![path(&[])]);
}

#[test]
fn parse_gives_empty_selector_for_a_field_with_an_empty_segment() {
    assert_eq!(parse_field_selector("a..b"), vec![path(&[])]);
    assert_eq!(parse_field_selector("."), vec![path(&[])]);
    assert_eq!(parse_field_selector(".a"), vec![path(&[])]);
    assert_eq!(parse_field_selector("a. .b"), vec![path(&[])]);
    assert_eq!(
        parse_field_selector("x.y,a..b, z ,.a,b."),
        vec![path(&["x", "y"]), path(&[]), path(&["z"]), path(&[]), path(&[])]
    );
}

#[test]
fn parse_never_gives_an_empty_segment() {
    for text in ["", ",a", "a,,b", "a..b", ".a", "a.", " . ", "a. b ,c", ",", "..", "a,b.c.,d"] {
        let selectors = parse_field_selector(text);
        assert_eq!(selectors.len(), text.split(',').count());
        for selector in &selectors {
            for segment in selector {
                assert!(!segment.is_empty());
            }
        }
    }
}

#[test]
fn get_walks_nested_mappings() {
    let doc = mapping(vec![("a", mapping(vec![("b", mapping(vec![("c", text("x"))]))]))]);
    assert_eq!(get_value_at_path(&doc, &path(&["a", "b", "c"])), Some(text("x")));
    assert_eq!(
        get_value_at_path(&doc, &path(&["a", "b"])),
        Some(mapping(vec![("c", text("x"))]))
    );
    assert_eq!(get_value_at_path(&doc, &path(&["a", "x"])), None);
    assert_eq!(get_value_at_path(&doc, &path(&[])), None);
}

#[test]
fn insert_creates_intermediate_mappings() {
    let mut doc = Document::new_mapping();
    insert_at_path(&mut doc, &path(&["a", "b"]), Document::Boolean(true));
    assert_eq!(doc, mapping(vec![("a", mapping(vec![("b", Document::Boolean(true))]))]));
}

#[test]
fn insert_replaces_a_scalar_on_the_way() {
    let mut doc = mapping(vec![("a", text("scalar")), ("z", Document::Null)]);
    insert_at_path(&mut doc, &path(&["a", "b"]), Document::Number(Number::Unsigned(1)));
    assert_eq!(
        doc,
        mapping(vec![
            ("a", mapping(vec![("b", Document::Number(Number::Unsigned(1)))])),
            ("z", Document::Null)
        ])
    );
}

#[test]
fn insert_with_empty_path_changes_nothing() {
    let mut doc = mapping(vec![("a", text("x"))]);
    insert_at_path(&mut doc, &path(&[]), Document::Null);
    assert_eq!(doc, mapping(vec![("a", text("x"))]));
}

#[test]
fn projection_round_trip_on_top_level_keys() {
    let doc = mapping(vec![
        ("os", mapping(vec![("family", text("Windows"))])),
        ("cpu", mapping(vec![("cores", Document::Number(Number::Unsigned(4)))])),
        ("flag", Document::Boolean(false)),
    ]);
    let selectors = vec![path(&["os"]), path(&["cpu"]), path(&["flag"])];
    assert_eq!(filter_json_fields(doc.clone(), selectors), doc);
}

#[test]
fn projection_missing_path_through_scalar() {
    let doc = mapping(vec![("a", text("scalar")), ("k", Document::Null)]);
    let out = filter_json_fields(doc.clone(), parse_field_selector("a.b.c"));
    assert_eq!(out, Document::new_mapping());
    let out = filter_json_fields(doc, parse_field_selector("a.b.c,k"));
    assert_eq!(out, mapping(vec![("k", Document::Null)]));
}

#[test]
fn projection_is_idempotent() {
    let doc = mapping(vec![
        ("a", mapping(vec![("c", text("2")), ("b", text("1")), ("d", Document::Null)])),
        ("e", Document::Sequence(vec![text("x"), Document::Null])),
        ("f", text("y")),
    ]);
    let selectors = parse_field_selector("a.b, e, a, a.c, nope, f.g");
    let once = filter_json_fields(doc, selectors.clone());
    let twice = filter_json_fields(once.clone(), selectors);
    assert_eq!(once, twice);
}

#[test]
fn projection_follows_selector_order() {
    let doc = mapping(vec![("a", text("1")), ("b", text("2"))]);
    let out = filter_json_fields(doc, parse_field_selector("b,a"));
    assert_eq!(out, mapping(vec![("b", text("2")), ("a", text("1"))]));
}

#[test]
fn projection_skips_malformed_selectors() {
    let doc = mapping(vec![("", text("empty key")), ("a", mapping(vec![("", text("inner"))]))]);
    let out = filter_json_fields(doc, vec![path(&[]), path(&[""]), path(&["a", ""])]);
    assert_eq!(out, Document::new_mapping());
}

#[test]
fn projection_of_a_scalar_root_is_empty() {
    let out = filter_json_fields(text("root"), parse_field_selector("a,b"));
    assert_eq!(out, Document::new_mapping());
}

#[test]
fn projection_merges_paths_with_a_common_prefix() {
    let doc = mapping(vec![(
        "apps",
        mapping(vec![(
            "tally",
            mapping(vec![
                ("installed", Document::Boolean(true)),
                ("variant", text("TallyPrime")),
                ("version", text("3.0.1")),
            ]),
        )]),
    )]);
    let out = filter_json_fields(
        doc,
        parse_field_selector("apps.tally.installed,apps.tally.version"),
    );
    assert_eq!(
        out,
        mapping(vec![(
            "apps",
            mapping(vec![(
                "tally",
                mapping(vec![
                    ("installed", Document::Boolean(true)),
                    ("version", text("3.0.1")),
                ]),
            )]),
        )])
    );
}

#[test]
fn projection_of_a_prefix_and_its_extension_keeps_the_whole_subtree() {
    let doc = mapping(vec![("a", mapping(vec![("b", text("1")), ("c", text("2"))]))]);
    let whole = mapping(vec![("a", mapping(vec![("b", text("1")), ("c", text("2"))]))]);
    assert_eq!(filter_json_fields(doc.clone(), parse_field_selector("a,a.b")), whole);
    assert_eq!(filter_json_fields(doc, parse_field_selector("a.b,a")), whole);
}

#[test]
fn projection_repeated_selector_adds_nothing() {
    let doc = mapping(vec![
        ("a", mapping(vec![("b", text("1")), ("c", text("2"))])),
        ("d", text("3")),
    ]);
    let once = filter_json_fields(doc.clone(), parse_field_selector("a.c,d"));
    let again = filter_json_fields(doc, parse_field_selector("a.c,d,a.c,d,d"));
    assert_eq!(once, again);
}

#[test]
fn projection_holds_only_what_was_selected() {
    let doc = mapping(vec![
        ("a", mapping(vec![("b", text("1")), ("c", text("2"))])),
        ("d", text("3")),
    ]);
    let out = filter_json_fields(doc, parse_field_selector("a.b"));
    assert_eq!(get_value_at_path(&out, &path(&["a", "b"])), Some(text("1")));
    assert_eq!(get_value_at_path(&out, &path(&["a", "c"])), None);
    assert_eq!(get_value_at_path(&out, &path(&["d"])), None);
}

#[test]
fn projection_keeps_documents_well_formed() {
    let doc = mapping(vec![
        ("a", mapping(vec![("b", text("1")), ("c", text("2"))])),
        ("d", text("3")),
    ]);
    assert!(doc.is_well_formed());
    let out = filter_json_fields(doc, parse_field_selector("a.b,d,a.c,a"));
    assert!(out.is_well_formed());
}

#[test]
fn projection_reads_the_first_of_two_entries_with_one_key() {
    let doc = mapping(vec![("k", text("first")), ("k", text("second"))]);
    let out = filter_json_fields(doc, parse_field_selector("k"));
    assert_eq!(out, mapping(vec![("k", text("first"))]));
}
