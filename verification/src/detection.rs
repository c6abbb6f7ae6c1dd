//! What a probe reports and what the cascade records: product variants,
//! evidence sources, partial evidence and the detection record, each with its
//! mathematical model, and the two rules by which evidence enters a record.

use crate::text::{contains, has_substring, to_chars};
use vstd::prelude::*;
use vstd::string::StringExecFns;

verus! {

/// The evidence sources, in the order of their precedence.
#[derive(Clone, Copy, Debug, PartialEq, Eq, Structural)]
pub enum SourceTag {
    RegistryUninstall,
    VendorRegistry,
    FilesystemPath,
    NetworkProtocol,
    Database,
}

impl SourceTag {
    /// The three sources that can establish that the product is installed.
    pub open spec fn is_mandatory(self) -> bool {
        self is RegistryUninstall || self is VendorRegistry || self is FilesystemPath
    }

    /// Whether the source can establish that the product is installed.
    pub fn mandatory(&self) -> (r: bool)
        ensures
            r == self.is_mandatory(),
    {
        match self {
            SourceTag::RegistryUninstall | SourceTag::VendorRegistry | SourceTag::FilesystemPath => true,
            _ => false,
        }
    }
}

/// The model of a [`VariantTag`].
pub enum Variant {
    Unknown,
    Generic(Seq<char>),
    Prime,
    Erp,
}

/// The product family that a product name stands for.
#[derive(Clone, Debug, PartialEq, Eq)]
pub enum VariantTag {
    /// Nothing is known of the variant.
    Unknown,
    /// A name of neither family, kept as it was found.
    Generic(String),
    /// The Prime family.
    Prime,
    /// The ERP family.
    Erp,
}

impl View for VariantTag {
    type V = Variant;

    open spec fn view(&self) -> Variant {
        match self {
            VariantTag::Unknown => Variant::Unknown,
            VariantTag::Generic(name) => Variant::Generic(name@),
            VariantTag::Prime => Variant::Prime,
            VariantTag::Erp => Variant::Erp,
        }
    }
}

/// The family that `text` names, or `Generic(fallback)` where it names none.
/// `Prime` is looked for first, so it wins where both keywords stand in the
/// text.
pub open spec fn classify_or(text: Seq<char>, fallback: Seq<char>) -> Variant {
    if contains(text, "Prime"@) {
        Variant::Prime
    } else if contains(text, "ERP"@) {
        Variant::Erp
    } else {
        Variant::Generic(fallback)
    }
}

/// The family that a raw product name stands for; a name of neither family
/// is kept as it is.
pub open spec fn classify(raw: Seq<char>) -> Variant {
    classify_or(raw, raw)
}

impl VariantTag {
    /// Classifies `text`, with `fallback` as the generic name where `text`
    /// names neither family.
    pub fn classify_or(text: &str, fallback: &str) -> (r: VariantTag)
        ensures
            r@ == classify_or(text@, fallback@),
    {
        let chars = to_chars(text);
        let prime = to_chars("Prime");
        let erp = to_chars("ERP");
        if has_substring(&chars, &prime) {
            VariantTag::Prime
        } else if has_substring(&chars, &erp) {
            VariantTag::Erp
        } else {
            VariantTag::Generic(String::from_str(fallback))
        }
    }

    /// Classifies a raw product name.
    pub fn classify(raw: &str) -> (r: VariantTag)
        ensures
            r@ == classify(raw@),
    {
        VariantTag::classify_or(raw, raw)
    }
}

/// The model of an optional string.
pub open spec fn text_of(s: Option<String>) -> Option<Seq<char>> {
    match s {
        Some(s) => Some(s@),
        None => None,
    }
}

/// The model of a [`PartialEvidence`].
pub struct Evidence {
    pub installed: bool,
    pub variant: Option<Variant>,
    pub version: Option<Seq<char>>,
    pub edition: Option<Seq<char>>,
    pub install_path: Option<Seq<char>>,
}

/// What one probe found. A probe that could not run reports no evidence at
/// all, never evidence with `installed` false.
#[derive(Clone, Debug, PartialEq, Eq)]
pub struct PartialEvidence {
    pub installed: bool,
    pub variant: Option<VariantTag>,
    pub version: Option<String>,
    pub edition: Option<String>,
    pub install_path: Option<String>,
}

impl View for PartialEvidence {
    type V = Evidence;

    open spec fn view(&self) -> Evidence {
        Evidence {
            installed: self.installed,
            variant: match self.variant {
                Some(v) => Some(v@),
                None => None,
            },
            version: text_of(self.version),
            edition: text_of(self.edition),
            install_path: text_of(self.install_path),
        }
    }
}

impl Evidence {
    /// Whether the evidence holds a field that an optional probe may
    /// overwrite.
    pub open spec fn refines(self) -> bool {
        self.variant is Some || self.version is Some || self.edition is Some
    }
}

/// The model of a [`DetectionRecord`].
pub struct Record {
    pub installed: bool,
    pub variant: Variant,
    pub version: Option<Seq<char>>,
    pub edition: Option<Seq<char>>,
    pub install_path: Option<Seq<char>>,
    pub source: Option<SourceTag>,
}

impl Record {
    /// The record of a product that was not found.
    pub open spec fn absent() -> Record {
        Record {
            installed: false,
            variant: Variant::Unknown,
            version: None,
            edition: None,
            install_path: None,
            source: None,
        }
    }

    /// A record of a product that is not installed holds nothing else, and
    /// a record of one that is names its source.
    pub open spec fn wf(self) -> bool {
        if self.installed {
            self.source is Some
        } else {
            self == Record::absent()
        }
    }

    /// The baseline that positive evidence of a mandatory source
    /// establishes: its variant, version and install path, under its tag.
    pub open spec fn adopt(source: SourceTag, evidence: Evidence) -> Record {
        Record {
            installed: true,
            variant: match evidence.variant {
                Some(v) => v,
                None => Variant::Unknown,
            },
            version: evidence.version,
            edition: None,
            install_path: evidence.install_path,
            source: Some(source),
        }
    }

    /// The record after an optional source has reported: each of variant,
    /// version and edition that the evidence holds overwrites the record's,
    /// and the source becomes the record's source where it overwrote
    /// anything. `installed` and the install path stay as they are, and a
    /// record of a product that is not installed is not refined at all.
    pub open spec fn refine(self, source: SourceTag, evidence: Evidence) -> Record {
        if self.installed {
            Record {
                installed: true,
                variant: match evidence.variant {
                    Some(v) => v,
                    None => self.variant,
                },
                version: if evidence.version is Some {
                    evidence.version
                } else {
                    self.version
                },
                edition: if evidence.edition is Some {
                    evidence.edition
                } else {
                    self.edition
                },
                install_path: self.install_path,
                source: if evidence.refines() {
                    Some(source)
                } else {
                    self.source
                },
            }
        } else {
            self
        }
    }
}

/// Whether the product is installed, and what is known of it.
#[derive(Clone, Debug, PartialEq, Eq)]
pub struct DetectionRecord {
    pub installed: bool,
    pub variant: VariantTag,
    pub version: Option<String>,
    pub edition: Option<String>,
    pub install_path: Option<String>,
    /// The source that last supplied a value of the record.
    pub source: Option<SourceTag>,
}

impl View for DetectionRecord {
    type V = Record;

    open spec fn view(&self) -> Record {
        Record {
            installed: self.installed,
            variant: self.variant@,
            version: text_of(self.version),
            edition: text_of(self.edition),
            install_path: text_of(self.install_path),
            source: self.source,
        }
    }
}

impl DetectionRecord {
    /// The record of a product that was not found.
    pub fn absent() -> (r: DetectionRecord)
        ensures
            r@ == Record::absent(),
            r@.wf(),
    {
        DetectionRecord {
            installed: false,
            variant: VariantTag::Unknown,
            version: None,
            edition: None,
            install_path: None,
            source: None,
        }
    }

    /// The baseline that positive evidence of a mandatory source
    /// establishes.
    pub fn adopt(source: SourceTag, evidence: PartialEvidence) -> (r: DetectionRecord)
        ensures
            r@ == Record::adopt(source, evidence@),
            r@.wf(),
    {
        DetectionRecord {
            installed: true,
            variant: match evidence.variant {
                Some(v) => v,
                None => VariantTag::Unknown,
            },
            version: evidence.version,
            edition: None,
            install_path: evidence.install_path,
            source: Some(source),
        }
    }

    /// Takes in what an optional source has reported.
    pub fn refine(&mut self, source: SourceTag, evidence: PartialEvidence)
        ensures
            final(self)@ == old(self)@.refine(source, evidence@),
            old(self)@.wf() ==> final(self)@.wf(),
    {
        if self.installed {
            let mut refined = false;
            if let Some(variant) = evidence.variant {
                self.variant = variant;
                refined = true;
            }
            if let Some(version) = evidence.version {
                self.version = Some(version);
                refined = true;
            }
            if let Some(edition) = evidence.edition {
                self.edition = Some(edition);
                refined = true;
            }
            if refined {
                self.source = Some(source);
            }
        }
    }
}

/// An optional source never takes back that the product is installed, and
/// never touches the install path.
pub proof fn lemma_refine_keeps_baseline(record: Record, source: SourceTag, evidence: Evidence)
    ensures
        record.refine(source, evidence).installed == record.installed,
        record.refine(source, evidence).install_path == record.install_path,
        record.wf() ==> record.refine(source, evidence).wf(),
{
}

/// Evidence that holds only a version leaves the variant as it is, sets the
/// version, and makes its source the record's source.
pub proof fn lemma_refine_overrides(
    record: Record,
    source: SourceTag,
    evidence: Evidence,
)
    requires
        record.installed,
    ensures
        evidence.variant is None ==> record.refine(source, evidence).variant == record.variant,
        evidence.version is Some ==> record.refine(source, evidence).version == evidence.version
            && record.refine(source, evidence).source == Some(source),
        evidence.version is None ==> record.refine(source, evidence).version == record.version,
        evidence.edition is None ==> record.refine(source, evidence).edition == record.edition,
        !evidence.refines() ==> record.refine(source, evidence) == record,
{
}

} // verus!
