//! The collector: the settings of one run, and what is done with the
//! document once the records are gathered.

use crate::cascade::CascadeConfig;
use crate::cli::Cli;
use crate::detection::{text_of, DetectionRecord};
use crate::document::{lemma_put_get, Document, Number, Tree};
use crate::models::{record_tree, CollectorInfo, SystemInfo};
use crate::projection::{parse_selectors, project};
use crate::utils::{filter_json_fields, insert_at_path, parse_field_selector};
use vstd::prelude::*;
use vstd::string::StringExecFns;

verus! {

/// The name under which the collector signs its output.
pub const NAME: &'static str = "QuickSys";

/// The version under which the collector signs its output.
pub const VERSION: &'static str = "0.1.0";

/// The endpoint that the network probe asks where none is set.
pub const DEFAULT_ENDPOINT: &'static str = "127.0.0.1:9000";

/// The model of a [`Collector`].
pub struct Settings {
    pub timeout_ms: u64,
    pub tally_enabled: bool,
    pub tally_http_endpoint: Option<Seq<char>>,
}

/// The settings of one run.
#[derive(Clone, Debug, PartialEq, Eq)]
pub struct Collector {
    timeout_ms: u64,
    tally_enabled: bool,
    tally_http_endpoint: Option<String>,
}

impl View for Collector {
    type V = Settings;

    closed spec fn view(&self) -> Settings {
        Settings {
            timeout_ms: self.timeout_ms,
            tally_enabled: self.tally_enabled,
            tally_http_endpoint: text_of(self.tally_http_endpoint),
        }
    }
}

/// The entry that the collector adds to a document: its name, its version
/// and the time that the run took.
pub open spec fn metadata(duration_ms: u64) -> Tree {
    Tree::Mapping(
        seq![
            ("name"@, Tree::Text(NAME@)),
            ("version"@, Tree::Text(VERSION@)),
            ("duration_ms"@, Tree::Number(Number::Unsigned(duration_ms))),
        ],
    )
}

/// The path under which a detection record stands in a document.
pub open spec fn detection_path() -> Seq<Seq<char>> {
    seq!["apps"@, "tally"@]
}

/// The detection record that an inventory reports: the one that detection
/// gave, where detection is switched on, and none otherwise.
pub open spec fn reported(tally_enabled: bool, detection: Option<&DetectionRecord>) -> Option<Tree> {
    match detection {
        Some(record) => if tally_enabled {
            Some(record_tree(record@))
        } else {
            None
        },
        None => None,
    }
}

/// The document of an inventory: the records without what they hold under
/// `apps`, followed by the reported detection record under `apps.tally`
/// where there is one.
pub open spec fn inventory(
    tally_enabled: bool,
    records: SystemInfo,
    detection: Option<&DetectionRecord>,
) -> Tree {
    let base = (SystemInfo { apps: None, ..records }).tree();
    match reported(tally_enabled, detection) {
        Some(record) => base.put("apps"@, Tree::empty().put("tally"@, record)),
        None => base,
    }
}

/// Puts a detection record into a document, under `apps.tally`.
pub fn embed_detection(document: &mut Document, record: &DetectionRecord)
    ensures
        final(document)@ == old(document)@.with(detection_path(), record_tree(record@)),
        old(document)@.wf() ==> final(document)@.wf(),
{
    let mut path: Vec<String> = Vec::new();
    path.push(String::from_str("apps"));
    path.push(String::from_str("tally"));
    let path = path.as_slice();
    assert(path.deep_view() =~= detection_path());
    insert_at_path(document, path, record.to_document());
}

impl Collector {
    /// A collector with the given time budget, with detection switched on
    /// and the network probe set to the default endpoint.
    pub fn new(timeout_ms: u64) -> (r: Collector)
        ensures
            r@ == (Settings {
                timeout_ms,
                tally_enabled: true,
                tally_http_endpoint: Some(DEFAULT_ENDPOINT@),
            }),
    {
        Collector {
            timeout_ms,
            tally_enabled: true,
            tally_http_endpoint: Some(String::from_str(DEFAULT_ENDPOINT)),
        }
    }

    /// Switches the detection of the accounting application off.
    pub fn disable_tally_detection(&mut self)
        ensures
            final(self)@ == (Settings { tally_enabled: false, ..old(self)@ }),
    {
        self.tally_enabled = false;
    }

    /// Sets the endpoint that the network probe asks.
    pub fn set_tally_http_endpoint(&mut self, endpoint: String)
        ensures
            final(self)@ == (Settings { tally_http_endpoint: Some(endpoint@), ..old(self)@ }),
    {
        self.tally_http_endpoint = Some(endpoint);
    }

    /// The collector that the options of a run ask for.
    pub fn from_cli(cli: &Cli) -> (r: Collector)
        ensures
            r@ == (Settings {
                timeout_ms: cli.timeout_ms,
                tally_enabled: !cli.no_tally,
                tally_http_endpoint: match cli.tally_http {
                    Some(endpoint) => Some(endpoint@),
                    None => Some(DEFAULT_ENDPOINT@),
                },
            }),
    {
        let mut collector = Collector::new(cli.timeout_ms);
        if cli.no_tally {
            collector.disable_tally_detection();
        }
        if let Some(endpoint) = &cli.tally_http {
            collector.set_tally_http_endpoint(endpoint.clone());
        }
        collector
    }

    /// The time budget of the run, in milliseconds.
    pub fn timeout_ms(&self) -> (r: u64)
        ensures
            r == self@.timeout_ms,
    {
        self.timeout_ms
    }

    /// Whether the accounting application is looked for.
    pub fn tally_enabled(&self) -> (r: bool)
        ensures
            r == self@.tally_enabled,
    {
        self.tally_enabled
    }

    /// The endpoint that the network probe asks.
    pub fn tally_http_endpoint(&self) -> (r: Option<&String>)
        ensures
            match r {
                Some(endpoint) => self@.tally_http_endpoint == Some(endpoint@),
                None => self@.tally_http_endpoint is None,
            },
    {
        self.tally_http_endpoint.as_ref()
    }

    /// How the detection cascade of this run is to go, or `None` where
    /// detection is switched off. The network probe is asked only where an
    /// endpoint is set and the probe is available; the budget of the cascade
    /// is the time budget of the run.
    pub fn cascade_config(&self, network_available: bool, database_available: bool) -> (r: Option<
        CascadeConfig,
    >)
        ensures
            r == if self@.tally_enabled {
                Some(
                    CascadeConfig {
                        total_budget_ms: self@.timeout_ms,
                        network_probe: network_available && self@.tally_http_endpoint is Some,
                        database_probe: database_available,
                    },
                )
            } else {
                None
            },
    {
        if self.tally_enabled {
            Some(
                CascadeConfig {
                    total_budget_ms: self.timeout_ms,
                    network_probe: network_available && self.tally_http_endpoint.is_some(),
                    database_probe: database_available,
                },
            )
        } else {
            None
        }
    }

    /// Writes the inventory as a document: the records as they were
    /// gathered, without what they hold under `apps`, and the detection
    /// record under `apps.tally` where detection is switched on and has run.
    /// What is known of the application comes from `detection` alone: with
    /// detection switched off the document holds nothing under `apps`.
    pub fn collect(&self, records: SystemInfo, detection: Option<&DetectionRecord>) -> (r: Document)
        ensures
            r@ == inventory(self@.tally_enabled, records, detection),
            r@.at(detection_path()) == reported(self@.tally_enabled, detection),
            reported(self@.tally_enabled, detection) is None ==> r@.get("apps"@) is None,
            r@.wf(),
    {
        let mut records = records;
        records.apps = None;
        let mut document = records.to_document();
        let ghost path = detection_path();
        assert(path.len() == 2 && path[0] == "apps"@ && path.drop_first() =~= seq!["tally"@]);
        match detection {
            Some(record) if self.tally_enabled => {
                let mut apps = Document::new_mapping();
                apps.insert(String::from_str("tally"), record.to_document());
                proof {
                    lemma_put_get(Tree::empty(), "tally"@, record_tree(record@), "tally"@);
                    lemma_put_get(document@, "apps"@, apps@, "apps"@);
                    assert(apps@.at(path.drop_first()) == apps@.get("tally"@));
                }
                document.insert(String::from_str("apps"), apps);
            },
            _ => {},
        }
        document
    }

    /// Projects `value` on the selectors that `selector` stands for.
    pub fn filter_fields(&self, value: Document, selector: String) -> (r: Document)
        ensures
            r@ == project(value@, parse_selectors(selector@)),
            r@ is Mapping,
            value@.wf() ==> r@.wf(),
    {
        let fields = parse_field_selector(selector.as_str());
        filter_json_fields(value, fields)
    }

    /// Signs a document: a mapping gets the entry `collector`, with the
    /// collector's name and version and the time that the run took. A
    /// document that is no mapping stays as it is.
    pub fn add_metadata(&self, value: &mut Document, duration_ms: u64)
        ensures
            final(value)@ == if old(value)@ is Mapping {
                old(value)@.put("collector"@, metadata(duration_ms))
            } else {
                old(value)@
            },
            old(value)@.wf() ==> final(value)@.wf(),
    {
        if value.is_mapping() {
            let info = CollectorInfo {
                name: String::from_str(NAME),
                version: String::from_str(VERSION),
                duration_ms,
            };
            value.insert(String::from_str("collector"), info.to_document());
        }
    }
}

} // verus!
