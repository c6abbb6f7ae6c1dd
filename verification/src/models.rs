//! The records that make up an inventory, and the document that each of
//! them is written as: a mapping with one entry for each field that is set,
//! in the order of the fields.

use crate::detection::{text_of, DetectionRecord, Record, SourceTag, Variant, VariantTag};
use crate::document::{entries_tree, items_tree, lemma_find, Document, Number, Tree};
use vstd::prelude::*;
use vstd::string::StringExecFns;

verus! {

/// `entries`, followed by `value` under `key` where there is a value.
pub open spec fn optional(
    entries: Seq<(Seq<char>, Tree)>,
    key: Seq<char>,
    value: Option<Tree>,
) -> Seq<(Seq<char>, Tree)> {
    match value {
        Some(value) => entries.push((key, value)),
        None => entries,
    }
}

/// No entry is keyed by `key`.
pub open spec fn absent(entries: Seq<(Seq<char>, Tree)>, key: Seq<char>) -> bool {
    forall|i: int| 0 <= i < entries.len() ==> (#[trigger] entries[i]).0 != key
}

/// Entries stay those of a well-formed mapping when a well-formed value is
/// put behind them under a key that they do not hold, and the keys that
/// they did not hold before are still not held, the new one apart.
pub proof fn lemma_optional_wf(entries: Seq<(Seq<char>, Tree)>, key: Seq<char>, value: Option<Tree>)
    requires
        Tree::Mapping(entries).wf(),
        absent(entries, key),
        value is Some ==> value->Some_0.wf(),
    ensures
        Tree::Mapping(optional(entries, key, value)).wf(),
        forall|other: Seq<char>|
            other != key && absent(entries, other) ==> #[trigger] absent(
                optional(entries, key, value),
                other,
            ),
{
    let after = optional(entries, key, value);
    assert forall|i: int, j: int| 0 <= i < j < after.len() implies (#[trigger] after[i]).0 != (
    #[trigger] after[j]).0 by {
        if j < entries.len() {
            assert(entries[i].0 != entries[j].0);
        } else {
            assert(entries[i].0 != key);
        }
    }
    assert forall|i: int| 0 <= i < after.len() implies (#[trigger] after[i]).1.wf() by {
        if i < entries.len() {
            assert(entries[i].1.wf());
        }
    }
}

/// A mapping holds nothing under a key that none of its entries has.
pub proof fn lemma_absent_get(entries: Seq<(Seq<char>, Tree)>, key: Seq<char>)
    requires
        absent(entries, key),
    ensures
        Tree::Mapping(entries).get(key) is None,
{
    lemma_find(entries, key);
}

/// The node that an optional text is written as.
pub open spec fn text_tree(text: Option<String>) -> Option<Tree> {
    match text {
        Some(text) => Some(Tree::Text(text@)),
        None => None,
    }
}

/// The node that an optional count is written as.
pub open spec fn count_tree(count: Option<u64>) -> Option<Tree> {
    match count {
        Some(count) => Some(Tree::Number(Number::Unsigned(count))),
        None => None,
    }
}

/// The node that an optional 32-bit count is written as.
pub open spec fn small_count_tree(count: Option<u32>) -> Option<Tree> {
    match count {
        Some(count) => Some(Tree::Number(Number::Unsigned(count as u64))),
        None => None,
    }
}

/// The node that an optional number is written as.
pub open spec fn number_tree(number: Option<Number>) -> Option<Tree> {
    match number {
        Some(number) => Some(Tree::Number(number)),
        None => None,
    }
}

/// The node that an optional list of texts is written as.
pub open spec fn texts_tree(texts: Option<Vec<String>>) -> Option<Tree> {
    match texts {
        Some(texts) => Some(Tree::Sequence(Seq::new(texts@.len(), |i: int| Tree::Text(texts@[i]@)))),
        None => None,
    }
}

/// A list of texts is written as a well-formed node.
pub proof fn lemma_texts_wf(texts: Option<Vec<String>>)
    ensures
        texts is Some ==> texts_tree(texts)->Some_0.wf(),
{
    if texts is Some {
        let items = texts_tree(texts)->Some_0->Sequence_0;
        assert forall|i: int| 0 <= i < items.len() implies (#[trigger] items[i]).wf() by {
            assert(items[i] is Text);
        }
    }
}

/// The model of an optional document.
pub open spec fn document_tree(document: Option<Document>) -> Option<Tree> {
    match document {
        Some(document) => Some(document@),
        None => None,
    }
}

fn push_optional(entries: &mut Vec<(String, Document)>, key: &str, value: Option<Document>)
    ensures
        entries_tree(final(entries)@) == optional(
            entries_tree(old(entries)@),
            key@,
            document_tree(value),
        ),
{
    if let Some(value) = value {
        entries.push((String::from_str(key), value));
    }
}

fn text_document(text: &Option<String>) -> (r: Option<Document>)
    ensures
        document_tree(r) == text_tree(*text),
{
    match text {
        Some(text) => Some(Document::Text(text.clone())),
        None => None,
    }
}

fn count_document(count: Option<u64>) -> (r: Option<Document>)
    ensures
        document_tree(r) == count_tree(count),
{
    match count {
        Some(count) => Some(Document::Number(Number::Unsigned(count))),
        None => None,
    }
}

fn small_count_document(count: Option<u32>) -> (r: Option<Document>)
    ensures
        document_tree(r) == small_count_tree(count),
{
    match count {
        Some(count) => Some(Document::Number(Number::Unsigned(count as u64))),
        None => None,
    }
}

fn number_document(number: Option<Number>) -> (r: Option<Document>)
    ensures
        document_tree(r) == number_tree(number),
{
    match number {
        Some(number) => Some(Document::Number(number)),
        None => None,
    }
}

fn texts_document(texts: &Option<Vec<String>>) -> (r: Option<Document>)
    ensures
        document_tree(r) == texts_tree(*texts),
{
    match texts {
        Some(texts) => {
            let mut items: Vec<Document> = Vec::new();
            let mut i: usize = 0;
            while i < texts.len()
                invariant
                    i <= texts.len(),
                    items.len() == i,
                    forall|j: int| 0 <= j < i ==> (#[trigger] items@[j])@ == Tree::Text(texts@[j]@),
                decreases texts.len() - i,
            {
                items.push(Document::Text(texts[i].clone()));
                i += 1;
            }
            proof {
                Document::lemma_sequence_tree(items);
                assert(items_tree(items@) =~= Seq::new(
                    texts@.len(),
                    |i: int| Tree::Text(texts@[i]@),
                ));
            }
            Some(Document::Sequence(items))
        },
        None => None,
    }
}

fn mapping_of(entries: Vec<(String, Document)>) -> (r: Document)
    ensures
        r@ == Tree::Mapping(entries_tree(entries@)),
{
    proof {
        Document::lemma_mapping_tree(entries);
    }
    Document::Mapping(entries)
}

fn no_entries() -> (r: Vec<(String, Document)>)
    ensures
        entries_tree(r@) == Seq::<(Seq<char>, Tree)>::empty(),
{
    let entries: Vec<(String, Document)> = Vec::new();
    entries
}

/// Who collected the inventory, and how long it took.
#[derive(Clone, Debug, Default, PartialEq, Eq)]
pub struct CollectorInfo {
    pub name: String,
    pub version: String,
    pub duration_ms: u64,
}

impl CollectorInfo {
    /// The document of the record.
    pub open spec fn tree(&self) -> Tree {
        Tree::Mapping(
            seq![
                ("name"@, Tree::Text(self.name@)),
                ("version"@, Tree::Text(self.version@)),
                ("duration_ms"@, Tree::Number(Number::Unsigned(self.duration_ms))),
            ],
        )
    }

    /// The document of the record is well formed.
    pub proof fn lemma_tree_wf(&self)
        ensures
            self.tree().wf(),
    {
        reveal_strlit("name");
        reveal_strlit("version");
        reveal_strlit("duration_ms");
        let entries = self.tree()->Mapping_0;
        assert(entries[0].0 == "name"@ && entries[1].0 == "version"@ && entries[2].0
            == "duration_ms"@);
        assert(entries[0].1.wf() && entries[1].1.wf() && entries[2].1.wf());
    }

    /// Writes the record as a document.
    pub fn to_document(&self) -> (r: Document)
        ensures
            r@ == self.tree(),
            r@.wf(),
    {
        proof {
            self.lemma_tree_wf();
        }
        let mut entries = no_entries();
        push_optional(&mut entries, "name", Some(Document::Text(self.name.clone())));
        push_optional(&mut entries, "version", Some(Document::Text(self.version.clone())));
        push_optional(
            &mut entries,
            "duration_ms",
            Some(Document::Number(Number::Unsigned(self.duration_ms))),
        );
        assert(entries_tree(entries@) =~= self.tree()->Mapping_0);
        mapping_of(entries)
    }
}

/// The operating system.
#[derive(Clone, Debug, Default, PartialEq, Eq)]
pub struct OsInfo {
    pub family: String,
    pub edition: Option<String>,
    pub version: Option<String>,
    pub build: Option<String>,
    pub arch: Option<String>,
    pub product_id: Option<String>,
}

impl OsInfo {
    /// The document of the record.
    pub open spec fn tree(&self) -> Tree {
        let e0 = seq![("family"@, Tree::Text(self.family@))];
        let e1 = optional(e0, "edition"@, text_tree(self.edition));
        let e2 = optional(e1, "version"@, text_tree(self.version));
        let e3 = optional(e2, "build"@, text_tree(self.build));
        let e4 = optional(e3, "arch"@, text_tree(self.arch));
        Tree::Mapping(optional(e4, "product_id"@, text_tree(self.product_id)))
    }

    /// The document of the record is well formed.
    pub proof fn lemma_tree_wf(&self)
        ensures
            self.tree().wf(),
    {
        reveal_strlit("family");
        reveal_strlit("edition");
        reveal_strlit("version");
        reveal_strlit("build");
        reveal_strlit("arch");
        reveal_strlit("product_id");
        assert(
            "family"@.len() == 6 && "edition"@.len() == 7 && "version"@.len() == 7
            && "build"@.len() == 5 && "arch"@.len() == 4 && "product_id"@.len() == 10
        );
        assert("edition"@[0] == 'e' && "version"@[0] == 'v');
        let e0 = seq![("family"@, Tree::Text(self.family@))];
        assert(e0.len() == 1 && e0[0].1.wf());
        lemma_optional_wf(e0, "edition"@, text_tree(self.edition));
        let e1 = optional(e0, "edition"@, text_tree(self.edition));
        lemma_optional_wf(e1, "version"@, text_tree(self.version));
        let e2 = optional(e1, "version"@, text_tree(self.version));
        lemma_optional_wf(e2, "build"@, text_tree(self.build));
        let e3 = optional(e2, "build"@, text_tree(self.build));
        lemma_optional_wf(e3, "arch"@, text_tree(self.arch));
        let e4 = optional(e3, "arch"@, text_tree(self.arch));
        lemma_optional_wf(e4, "product_id"@, text_tree(self.product_id));
    }

    /// Writes the record as a document.
    pub fn to_document(&self) -> (r: Document)
        ensures
            r@ == self.tree(),
            r@.wf(),
    {
        proof {
            self.lemma_tree_wf();
        }
        let mut entries = no_entries();
        push_optional(&mut entries, "family", Some(Document::Text(self.family.clone())));
        push_optional(&mut entries, "edition", text_document(&self.edition));
        push_optional(&mut entries, "version", text_document(&self.version));
        push_optional(&mut entries, "build", text_document(&self.build));
        push_optional(&mut entries, "arch", text_document(&self.arch));
        push_optional(&mut entries, "product_id", text_document(&self.product_id));
        mapping_of(entries)
    }
}

/// The machine.
#[derive(Clone, Debug, Default, PartialEq, Eq)]
pub struct DeviceInfo {
    pub hostname: Option<String>,
    pub manufacturer: Option<String>,
    pub model: Option<String>,
    pub uuid: Option<String>,
}

impl DeviceInfo {
    /// The document of the record.
    pub open spec fn tree(&self) -> Tree {
        let e1 = optional(Seq::empty(), "hostname"@, text_tree(self.hostname));
        let e2 = optional(e1, "manufacturer"@, text_tree(self.manufacturer));
        let e3 = optional(e2, "model"@, text_tree(self.model));
        Tree::Mapping(optional(e3, "uuid"@, text_tree(self.uuid)))
    }

    /// The document of the record is well formed.
    pub proof fn lemma_tree_wf(&self)
        ensures
            self.tree().wf(),
    {
        reveal_strlit("hostname");
        reveal_strlit("manufacturer");
        reveal_strlit("model");
        reveal_strlit("uuid");
        assert(
            "hostname"@.len() == 8 && "manufacturer"@.len() == 12 && "model"@.len() == 5
            && "uuid"@.len() == 4
        );
        let e0 = Seq::<(Seq<char>, Tree)>::empty();
        lemma_optional_wf(e0, "hostname"@, text_tree(self.hostname));
        let e1 = optional(e0, "hostname"@, text_tree(self.hostname));
        lemma_optional_wf(e1, "manufacturer"@, text_tree(self.manufacturer));
        let e2 = optional(e1, "manufacturer"@, text_tree(self.manufacturer));
        lemma_optional_wf(e2, "model"@, text_tree(self.model));
        let e3 = optional(e2, "model"@, text_tree(self.model));
        lemma_optional_wf(e3, "uuid"@, text_tree(self.uuid));
    }

    /// Writes the record as a document.
    pub fn to_document(&self) -> (r: Document)
        ensures
            r@ == self.tree(),
            r@.wf(),
    {
        proof {
            self.lemma_tree_wf();
        }
        let mut entries = no_entries();
        push_optional(&mut entries, "hostname", text_document(&self.hostname));
        push_optional(&mut entries, "manufacturer", text_document(&self.manufacturer));
        push_optional(&mut entries, "model", text_document(&self.model));
        push_optional(&mut entries, "uuid", text_document(&self.uuid));
        mapping_of(entries)
    }
}

/// The processor.
#[derive(Clone, Debug, Default, PartialEq, Eq)]
pub struct CpuInfo {
    pub name: Option<String>,
    pub physical_cores: Option<u32>,
    pub logical_cores: Option<u32>,
    pub max_frequency_mhz: Option<u32>,
}

impl CpuInfo {
    /// The document of the record.
    pub open spec fn tree(&self) -> Tree {
        let e1 = optional(Seq::empty(), "name"@, text_tree(self.name));
        let e2 = optional(e1, "physical_cores"@, small_count_tree(self.physical_cores));
        let e3 = optional(e2, "logical_cores"@, small_count_tree(self.logical_cores));
        Tree::Mapping(optional(e3, "max_frequency_mhz"@, small_count_tree(self.max_frequency_mhz)))
    }

    /// The document of the record is well formed.
    pub proof fn lemma_tree_wf(&self)
        ensures
            self.tree().wf(),
    {
        reveal_strlit("name");
        reveal_strlit("physical_cores");
        reveal_strlit("logical_cores");
        reveal_strlit("max_frequency_mhz");
        assert(
            "name"@.len() == 4 && "physical_cores"@.len() == 14 && "logical_cores"@.len() == 13
            && "max_frequency_mhz"@.len() == 17
        );
        let e0 = Seq::<(Seq<char>, Tree)>::empty();
        lemma_optional_wf(e0, "name"@, text_tree(self.name));
        let e1 = optional(e0, "name"@, text_tree(self.name));
        lemma_optional_wf(e1, "physical_cores"@, small_count_tree(self.physical_cores));
        let e2 = optional(e1, "physical_cores"@, small_count_tree(self.physical_cores));
        lemma_optional_wf(e2, "logical_cores"@, small_count_tree(self.logical_cores));
        let e3 = optional(e2, "logical_cores"@, small_count_tree(self.logical_cores));
        lemma_optional_wf(e3, "max_frequency_mhz"@, small_count_tree(self.max_frequency_mhz));
    }

    /// Writes the record as a document.
    pub fn to_document(&self) -> (r: Document)
        ensures
            r@ == self.tree(),
            r@.wf(),
    {
        proof {
            self.lemma_tree_wf();
        }
        let mut entries = no_entries();
        push_optional(&mut entries, "name", text_document(&self.name));
        push_optional(&mut entries, "physical_cores", small_count_document(self.physical_cores));
        push_optional(&mut entries, "logical_cores", small_count_document(self.logical_cores));
        push_optional(
            &mut entries,
            "max_frequency_mhz",
            small_count_document(self.max_frequency_mhz),
        );
        mapping_of(entries)
    }
}

/// The memory, in mebibytes.
#[derive(Clone, Debug, Default, PartialEq, Eq)]
pub struct MemoryInfo {
    pub installed_mb: Option<u64>,
    pub available_mb: Option<u64>,
}

impl MemoryInfo {
    /// The document of the record.
    pub open spec fn tree(&self) -> Tree {
        let e1 = optional(Seq::empty(), "installed_mb"@, count_tree(self.installed_mb));
        Tree::Mapping(optional(e1, "available_mb"@, count_tree(self.available_mb)))
    }

    /// The document of the record is well formed.
    pub proof fn lemma_tree_wf(&self)
        ensures
            self.tree().wf(),
    {
        reveal_strlit("installed_mb");
        reveal_strlit("available_mb");
        assert("available_mb"@[0] == 'a' && "installed_mb"@[0] == 'i');
        let e0 = Seq::<(Seq<char>, Tree)>::empty();
        lemma_optional_wf(e0, "installed_mb"@, count_tree(self.installed_mb));
        let e1 = optional(e0, "installed_mb"@, count_tree(self.installed_mb));
        lemma_optional_wf(e1, "available_mb"@, count_tree(self.available_mb));
    }

    /// Writes the record as a document.
    pub fn to_document(&self) -> (r: Document)
        ensures
            r@ == self.tree(),
            r@.wf(),
    {
        proof {
            self.lemma_tree_wf();
        }
        let mut entries = no_entries();
        push_optional(&mut entries, "installed_mb", count_document(self.installed_mb));
        push_optional(&mut entries, "available_mb", count_document(self.available_mb));
        mapping_of(entries)
    }
}

/// One fixed disk. The sizes are numbers as the caller computed them.
#[derive(Clone, Debug, Default, PartialEq, Eq)]
pub struct DiskInfo {
    pub drive_letter: Option<String>,
    pub fs_type: Option<String>,
    pub total_gb: Option<Number>,
    pub free_gb: Option<Number>,
}

impl DiskInfo {
    /// The document of the record.
    pub open spec fn tree(&self) -> Tree {
        let e1 = optional(Seq::empty(), "drive_letter"@, text_tree(self.drive_letter));
        let e2 = optional(e1, "fs_type"@, text_tree(self.fs_type));
        let e3 = optional(e2, "total_gb"@, number_tree(self.total_gb));
        Tree::Mapping(optional(e3, "free_gb"@, number_tree(self.free_gb)))
    }

    /// The document of the record is well formed.
    pub proof fn lemma_tree_wf(&self)
        ensures
            self.tree().wf(),
    {
        reveal_strlit("drive_letter");
        reveal_strlit("fs_type");
        reveal_strlit("total_gb");
        reveal_strlit("free_gb");
        assert(
            "drive_letter"@.len() == 12 && "fs_type"@.len() == 7 && "total_gb"@.len() == 8
            && "free_gb"@.len() == 7
        );
        assert("free_gb"@[1] == 'r' && "fs_type"@[1] == 's');
        let e0 = Seq::<(Seq<char>, Tree)>::empty();
        lemma_optional_wf(e0, "drive_letter"@, text_tree(self.drive_letter));
        let e1 = optional(e0, "drive_letter"@, text_tree(self.drive_letter));
        lemma_optional_wf(e1, "fs_type"@, text_tree(self.fs_type));
        let e2 = optional(e1, "fs_type"@, text_tree(self.fs_type));
        lemma_optional_wf(e2, "total_gb"@, number_tree(self.total_gb));
        let e3 = optional(e2, "total_gb"@, number_tree(self.total_gb));
        lemma_optional_wf(e3, "free_gb"@, number_tree(self.free_gb));
    }

    /// Writes the record as a document.
    pub fn to_document(&self) -> (r: Document)
        ensures
            r@ == self.tree(),
            r@.wf(),
    {
        proof {
            self.lemma_tree_wf();
        }
        let mut entries = no_entries();
        push_optional(&mut entries, "drive_letter", text_document(&self.drive_letter));
        push_optional(&mut entries, "fs_type", text_document(&self.fs_type));
        push_optional(&mut entries, "total_gb", number_document(self.total_gb));
        push_optional(&mut entries, "free_gb", number_document(self.free_gb));
        mapping_of(entries)
    }
}

/// One network interface.
#[derive(Clone, Debug, Default, PartialEq, Eq)]
pub struct NetworkInfo {
    pub interface_name: Option<String>,
    pub mac_address: Option<String>,
    pub ipv4_addresses: Option<Vec<String>>,
    pub ipv6_addresses: Option<Vec<String>>,
}

impl NetworkInfo {
    /// The document of the record.
    pub open spec fn tree(&self) -> Tree {
        let e1 = optional(Seq::empty(), "interface_name"@, text_tree(self.interface_name));
        let e2 = optional(e1, "mac_address"@, text_tree(self.mac_address));
        let e3 = optional(e2, "ipv4_addresses"@, texts_tree(self.ipv4_addresses));
        Tree::Mapping(optional(e3, "ipv6_addresses"@, texts_tree(self.ipv6_addresses)))
    }

    /// The document of the record is well formed.
    pub proof fn lemma_tree_wf(&self)
        ensures
            self.tree().wf(),
    {
        reveal_strlit("interface_name");
        reveal_strlit("mac_address");
        reveal_strlit("ipv4_addresses");
        reveal_strlit("ipv6_addresses");
        assert(
            "interface_name"@.len() == 14 && "mac_address"@.len() == 11
            && "ipv4_addresses"@.len() == 14 && "ipv6_addresses"@.len() == 14
        );
        assert(
            "interface_name"@[1] == 'n' && "ipv4_addresses"@[1] == 'p'
            && "ipv4_addresses"@[3] == '4' && "ipv6_addresses"@[1] == 'p'
            && "ipv6_addresses"@[3] == '6'
        );
        let e0 = Seq::<(Seq<char>, Tree)>::empty();
        lemma_optional_wf(e0, "interface_name"@, text_tree(self.interface_name));
        let e1 = optional(e0, "interface_name"@, text_tree(self.interface_name));
        lemma_optional_wf(e1, "mac_address"@, text_tree(self.mac_address));
        let e2 = optional(e1, "mac_address"@, text_tree(self.mac_address));
        lemma_texts_wf(self.ipv4_addresses);
        lemma_texts_wf(self.ipv6_addresses);
        lemma_optional_wf(e2, "ipv4_addresses"@, texts_tree(self.ipv4_addresses));
        let e3 = optional(e2, "ipv4_addresses"@, texts_tree(self.ipv4_addresses));
        lemma_optional_wf(e3, "ipv6_addresses"@, texts_tree(self.ipv6_addresses));
    }

    /// Writes the record as a document.
    pub fn to_document(&self) -> (r: Document)
        ensures
            r@ == self.tree(),
            r@.wf(),
    {
        proof {
            self.lemma_tree_wf();
        }
        let mut entries = no_entries();
        push_optional(&mut entries, "interface_name", text_document(&self.interface_name));
        push_optional(&mut entries, "mac_address", text_document(&self.mac_address));
        push_optional(&mut entries, "ipv4_addresses", texts_document(&self.ipv4_addresses));
        push_optional(&mut entries, "ipv6_addresses", texts_document(&self.ipv6_addresses));
        mapping_of(entries)
    }
}

/// The name that a product family is written as; none where nothing is
/// known of the variant.
pub open spec fn variant_label(variant: Variant) -> Option<Seq<char>> {
    match variant {
        Variant::Unknown => None,
        Variant::Generic(name) => Some(name),
        Variant::Prime => Some("TallyPrime"@),
        Variant::Erp => Some("TallyERP9"@),
    }
}

/// The name that an evidence source is written as.
pub open spec fn source_label(source: SourceTag) -> Seq<char> {
    match source {
        SourceTag::RegistryUninstall => "registry_uninstall"@,
        SourceTag::VendorRegistry => "registry_vendor"@,
        SourceTag::FilesystemPath => "file_version"@,
        SourceTag::NetworkProtocol => "http"@,
        SourceTag::Database => "odbc"@,
    }
}

/// What is known of the accounting application.
#[derive(Clone, Debug, Default, PartialEq, Eq)]
pub struct TallyInfo {
    pub installed: bool,
    pub variant: Option<String>,
    pub version: Option<String>,
    pub edition: Option<String>,
    pub install_path: Option<String>,
    pub detection_source: Option<String>,
}

impl TallyInfo {
    /// The document of the record.
    pub open spec fn tree(&self) -> Tree {
        let e0 = seq![("installed"@, Tree::Boolean(self.installed))];
        let e1 = optional(e0, "variant"@, text_tree(self.variant));
        let e2 = optional(e1, "version"@, text_tree(self.version));
        let e3 = optional(e2, "edition"@, text_tree(self.edition));
        let e4 = optional(e3, "install_path"@, text_tree(self.install_path));
        Tree::Mapping(optional(e4, "detection_source"@, text_tree(self.detection_source)))
    }

    /// The document of the record is well formed.
    pub proof fn lemma_tree_wf(&self)
        ensures
            self.tree().wf(),
    {
        reveal_strlit("installed");
        reveal_strlit("variant");
        reveal_strlit("version");
        reveal_strlit("edition");
        reveal_strlit("install_path");
        reveal_strlit("detection_source");
        assert(
            "installed"@.len() == 9 && "variant"@.len() == 7 && "version"@.len() == 7
            && "edition"@.len() == 7 && "install_path"@.len() == 12
            && "detection_source"@.len() == 16
        );
        assert(
            "edition"@[0] == 'e' && "variant"@[0] == 'v' && "variant"@[1] == 'a'
            && "version"@[0] == 'v' && "version"@[1] == 'e'
        );
        let e0 = seq![("installed"@, Tree::Boolean(self.installed))];
        assert(e0.len() == 1 && e0[0].1.wf());
        lemma_optional_wf(e0, "variant"@, text_tree(self.variant));
        let e1 = optional(e0, "variant"@, text_tree(self.variant));
        lemma_optional_wf(e1, "version"@, text_tree(self.version));
        let e2 = optional(e1, "version"@, text_tree(self.version));
        lemma_optional_wf(e2, "edition"@, text_tree(self.edition));
        let e3 = optional(e2, "edition"@, text_tree(self.edition));
        lemma_optional_wf(e3, "install_path"@, text_tree(self.install_path));
        let e4 = optional(e3, "install_path"@, text_tree(self.install_path));
        lemma_optional_wf(e4, "detection_source"@, text_tree(self.detection_source));
    }

    /// Writes the record as a document.
    pub fn to_document(&self) -> (r: Document)
        ensures
            r@ == self.tree(),
            r@.wf(),
    {
        proof {
            self.lemma_tree_wf();
        }
        let mut entries = no_entries();
        push_optional(&mut entries, "installed", Some(Document::Boolean(self.installed)));
        push_optional(&mut entries, "variant", text_document(&self.variant));
        push_optional(&mut entries, "version", text_document(&self.version));
        push_optional(&mut entries, "edition", text_document(&self.edition));
        push_optional(&mut entries, "install_path", text_document(&self.install_path));
        push_optional(&mut entries, "detection_source", text_document(&self.detection_source));
        mapping_of(entries)
    }

    /// What a detection record says of the application, with the variant
    /// and the source under the names they are written as.
    pub fn from_record(record: &DetectionRecord) -> (r: TallyInfo)
        ensures
            r.installed == record@.installed,
            text_of(r.variant) == variant_label(record@.variant),
            text_of(r.version) == record@.version,
            text_of(r.edition) == record@.edition,
            text_of(r.install_path) == record@.install_path,
            text_of(r.detection_source) == match record@.source {
                Some(source) => Some(source_label(source)),
                None => None,
            },
    {
        TallyInfo {
            installed: record.installed,
            variant: match &record.variant {
                VariantTag::Unknown => None,
                VariantTag::Generic(name) => Some(name.clone()),
                VariantTag::Prime => Some(String::from_str("TallyPrime")),
                VariantTag::Erp => Some(String::from_str("TallyERP9")),
            },
            version: record.version.clone(),
            edition: record.edition.clone(),
            install_path: record.install_path.clone(),
            detection_source: match record.source {
                Some(SourceTag::RegistryUninstall) => Some(String::from_str("registry_uninstall")),
                Some(SourceTag::VendorRegistry) => Some(String::from_str("registry_vendor")),
                Some(SourceTag::FilesystemPath) => Some(String::from_str("file_version")),
                Some(SourceTag::NetworkProtocol) => Some(String::from_str("http")),
                Some(SourceTag::Database) => Some(String::from_str("odbc")),
                None => None,
            },
        }
    }
}

/// The node that an optional text of the model is written as.
pub open spec fn label_tree(label: Option<Seq<char>>) -> Option<Tree> {
    match label {
        Some(label) => Some(Tree::Text(label)),
        None => None,
    }
}

/// The document that a detection record is written as: whether the product
/// is installed, and each of variant, version, edition, install path and
/// source that is set.
pub open spec fn record_tree(record: Record) -> Tree {
    let e0 = seq![("installed"@, Tree::Boolean(record.installed))];
    let e1 = optional(e0, "variant"@, label_tree(variant_label(record.variant)));
    let e2 = optional(e1, "version"@, label_tree(record.version));
    let e3 = optional(e2, "edition"@, label_tree(record.edition));
    let e4 = optional(e3, "install_path"@, label_tree(record.install_path));
    Tree::Mapping(
        optional(
            e4,
            "detection_source"@,
            match record.source {
                Some(source) => Some(Tree::Text(source_label(source))),
                None => None,
            },
        ),
    )
}

impl DetectionRecord {
    /// Writes the record as a document.
    pub fn to_document(&self) -> (r: Document)
        ensures
            r@ == record_tree(self@),
            r@.wf(),
    {
        let info = TallyInfo::from_record(self);
        info.to_document()
    }
}

/// The applications that were looked for.
#[derive(Clone, Debug, Default, PartialEq, Eq)]
pub struct AppsInfo {
    pub tally: Option<TallyInfo>,
}

impl AppsInfo {
    /// The document of the record.
    pub open spec fn tree(&self) -> Tree {
        Tree::Mapping(
            optional(
                Seq::empty(),
                "tally"@,
                match self.tally {
                    Some(tally) => Some(tally.tree()),
                    None => None,
                },
            ),
        )
    }

    /// The document of the record is well formed.
    pub proof fn lemma_tree_wf(&self)
        ensures
            self.tree().wf(),
    {
        reveal_strlit("tally");
        if self.tally is Some {
            self.tally->Some_0.lemma_tree_wf();
        }
        let e0 = Seq::<(Seq<char>, Tree)>::empty();
        lemma_optional_wf(e0, "tally"@, match self.tally {
                Some(tally) => Some(tally.tree()),
                None => None,
            });
    }

    /// Writes the record as a document.
    pub fn to_document(&self) -> (r: Document)
        ensures
            r@ == self.tree(),
            r@.wf(),
    {
        proof {
            self.lemma_tree_wf();
        }
        let mut entries = no_entries();
        let tally = match &self.tally {
            Some(tally) => Some(tally.to_document()),
            None => None,
        };
        push_optional(&mut entries, "tally", tally);
        mapping_of(entries)
    }
}

/// The documents of a list of disks.
pub open spec fn disks_tree(disks: Option<Vec<DiskInfo>>) -> Option<Tree> {
    match disks {
        Some(disks) => Some(Tree::Sequence(Seq::new(disks@.len(), |i: int| disks@[i].tree()))),
        None => None,
    }
}

/// The documents of a list of network interfaces.
pub open spec fn interfaces_tree(interfaces: Option<Vec<NetworkInfo>>) -> Option<Tree> {
    match interfaces {
        Some(interfaces) => Some(
            Tree::Sequence(Seq::new(interfaces@.len(), |i: int| interfaces@[i].tree())),
        ),
        None => None,
    }
}

fn disks_document(disks: &Option<Vec<DiskInfo>>) -> (r: Option<Document>)
    ensures
        document_tree(r) == disks_tree(*disks),
{
    match disks {
        Some(disks) => {
            let mut items: Vec<Document> = Vec::new();
            let mut i: usize = 0;
            while i < disks.len()
                invariant
                    i <= disks.len(),
                    items.len() == i,
                    forall|j: int| 0 <= j < i ==> (#[trigger] items@[j])@ == disks@[j].tree(),
                decreases disks.len() - i,
            {
                items.push(disks[i].to_document());
                i += 1;
            }
            proof {
                Document::lemma_sequence_tree(items);
                assert(items_tree(items@) =~= Seq::new(disks@.len(), |i: int| disks@[i].tree()));
            }
            Some(Document::Sequence(items))
        },
        None => None,
    }
}

fn interfaces_document(interfaces: &Option<Vec<NetworkInfo>>) -> (r: Option<Document>)
    ensures
        document_tree(r) == interfaces_tree(*interfaces),
{
    match interfaces {
        Some(interfaces) => {
            let mut items: Vec<Document> = Vec::new();
            let mut i: usize = 0;
            while i < interfaces.len()
                invariant
                    i <= interfaces.len(),
                    items.len() == i,
                    forall|j: int| 0 <= j < i ==> (#[trigger] items@[j])@ == interfaces@[j].tree(),
                decreases interfaces.len() - i,
            {
                items.push(interfaces[i].to_document());
                i += 1;
            }
            proof {
                Document::lemma_sequence_tree(items);
                assert(items_tree(items@) =~= Seq::new(
                    interfaces@.len(),
                    |i: int| interfaces@[i].tree(),
                ));
            }
            Some(Document::Sequence(items))
        },
        None => None,
    }
}

/// The whole inventory.
#[derive(Clone, Debug, Default, PartialEq, Eq)]
pub struct SystemInfo {
    pub collector: Option<CollectorInfo>,
    pub os: Option<OsInfo>,
    pub device: Option<DeviceInfo>,
    pub cpu: Option<CpuInfo>,
    pub memory: Option<MemoryInfo>,
    pub disks: Option<Vec<DiskInfo>>,
    pub network: Option<Vec<NetworkInfo>>,
    pub apps: Option<AppsInfo>,
}

impl SystemInfo {
    /// The document of the inventory: each record that is set, under the
    /// name of its field.
    pub open spec fn tree(&self) -> Tree {
        let e1 = optional(
            Seq::empty(),
            "collector"@,
            match self.collector {
                Some(x) => Some(x.tree()),
                None => None,
            },
        );
        let e2 = optional(
            e1,
            "os"@,
            match self.os {
                Some(x) => Some(x.tree()),
                None => None,
            },
        );
        let e3 = optional(
            e2,
            "device"@,
            match self.device {
                Some(x) => Some(x.tree()),
                None => None,
            },
        );
        let e4 = optional(
            e3,
            "cpu"@,
            match self.cpu {
                Some(x) => Some(x.tree()),
                None => None,
            },
        );
        let e5 = optional(
            e4,
            "memory"@,
            match self.memory {
                Some(x) => Some(x.tree()),
                None => None,
            },
        );
        let e6 = optional(e5, "disks"@, disks_tree(self.disks));
        let e7 = optional(e6, "network"@, interfaces_tree(self.network));
        Tree::Mapping(
            optional(
                e7,
                "apps"@,
                match self.apps {
                    Some(x) => Some(x.tree()),
                    None => None,
                },
            ),
        )
    }

    /// The document of the inventory is well formed, and holds nothing
    /// under `apps` where the inventory holds no applications.
    pub proof fn lemma_tree_wf(&self)
        ensures
            self.tree().wf(),
            self.apps is None ==> self.tree().get("apps"@) is None,
    {
        reveal_strlit("collector");
        reveal_strlit("os");
        reveal_strlit("device");
        reveal_strlit("cpu");
        reveal_strlit("memory");
        reveal_strlit("disks");
        reveal_strlit("network");
        reveal_strlit("apps");
        assert(
            "collector"@.len() == 9 && "os"@.len() == 2 && "device"@.len() == 6
            && "cpu"@.len() == 3 && "memory"@.len() == 6 && "disks"@.len() == 5
            && "network"@.len() == 7 && "apps"@.len() == 4
        );
        assert("device"@[0] == 'd' && "memory"@[0] == 'm');
        if self.collector is Some {
            self.collector->Some_0.lemma_tree_wf();
        }
        if self.os is Some {
            self.os->Some_0.lemma_tree_wf();
        }
        if self.device is Some {
            self.device->Some_0.lemma_tree_wf();
        }
        if self.cpu is Some {
            self.cpu->Some_0.lemma_tree_wf();
        }
        if self.memory is Some {
            self.memory->Some_0.lemma_tree_wf();
        }
        if self.apps is Some {
            self.apps->Some_0.lemma_tree_wf();
        }
        if self.disks is Some {
            let disks = self.disks->Some_0;
            assert forall|i: int| 0 <= i < disks@.len() implies (#[trigger] disks@[i]).tree().wf() by {
                disks@[i].lemma_tree_wf();
            }
        }
        if self.network is Some {
            let interfaces = self.network->Some_0;
            assert forall|i: int| 0 <= i < interfaces@.len() implies (#[trigger] interfaces@[i]).tree().wf() by {
                interfaces@[i].lemma_tree_wf();
            }
        }
        let e0 = Seq::<(Seq<char>, Tree)>::empty();
        lemma_optional_wf(e0, "collector"@, match self.collector {
                Some(x) => Some(x.tree()),
                None => None,
            });
        let e1 = optional(e0, "collector"@, match self.collector {
                Some(x) => Some(x.tree()),
                None => None,
            });
        lemma_optional_wf(e1, "os"@, match self.os {
                Some(x) => Some(x.tree()),
                None => None,
            });
        let e2 = optional(e1, "os"@, match self.os {
                Some(x) => Some(x.tree()),
                None => None,
            });
        lemma_optional_wf(e2, "device"@, match self.device {
                Some(x) => Some(x.tree()),
                None => None,
            });
        let e3 = optional(e2, "device"@, match self.device {
                Some(x) => Some(x.tree()),
                None => None,
            });
        lemma_optional_wf(e3, "cpu"@, match self.cpu {
                Some(x) => Some(x.tree()),
                None => None,
            });
        let e4 = optional(e3, "cpu"@, match self.cpu {
                Some(x) => Some(x.tree()),
                None => None,
            });
        lemma_optional_wf(e4, "memory"@, match self.memory {
                Some(x) => Some(x.tree()),
                None => None,
            });
        let e5 = optional(e4, "memory"@, match self.memory {
                Some(x) => Some(x.tree()),
                None => None,
            });
        lemma_optional_wf(e5, "disks"@, disks_tree(self.disks));
        let e6 = optional(e5, "disks"@, disks_tree(self.disks));
        lemma_optional_wf(e6, "network"@, interfaces_tree(self.network));
        let e7 = optional(e6, "network"@, interfaces_tree(self.network));
        lemma_optional_wf(e7, "apps"@, match self.apps {
                Some(x) => Some(x.tree()),
                None => None,
            });
        if self.apps is None {
            lemma_absent_get(e7, "apps"@);
        }
    }

    /// Writes the inventory as a document.
    pub fn to_document(&self) -> (r: Document)
        ensures
            r@ == self.tree(),
            r@.wf(),
            self.apps is None ==> r@.get("apps"@) is None,
    {
        proof {
            self.lemma_tree_wf();
        }
        let mut entries = no_entries();
        let collector = match &self.collector {
            Some(x) => Some(x.to_document()),
            None => None,
        };
        push_optional(&mut entries, "collector", collector);
        let os = match &self.os {
            Some(x) => Some(x.to_document()),
            None => None,
        };
        push_optional(&mut entries, "os", os);
        let device = match &self.device {
            Some(x) => Some(x.to_document()),
            None => None,
        };
        push_optional(&mut entries, "device", device);
        let cpu = match &self.cpu {
            Some(x) => Some(x.to_document()),
            None => None,
        };
        push_optional(&mut entries, "cpu", cpu);
        let memory = match &self.memory {
            Some(x) => Some(x.to_document()),
            None => None,
        };
        push_optional(&mut entries, "memory", memory);
        push_optional(&mut entries, "disks", disks_document(&self.disks));
        push_optional(&mut entries, "network", interfaces_document(&self.network));
        let apps = match &self.apps {
            Some(x) => Some(x.to_document()),
            None => None,
        };
        push_optional(&mut entries, "apps", apps);
        mapping_of(entries)
    }
}

} // verus!

