//! What each evidence source makes of what it read. Reading the registry,
//! the file system, the network or a database is left to the caller; the
//! functions here take what was read, as plain values, and decide.

use crate::detection::{classify, classify_or, text_of, Evidence, PartialEvidence, VariantTag};
use crate::text::{contains, has_substring, to_chars};
use vstd::prelude::*;
use vstd::string::StringExecFns;

verus! {

/// The keyword by which an uninstall entry names the product.
pub const PRODUCT_KEYWORD: &'static str = "Tally";

/// What stands for a version or a path that the registry does not give.
pub const UNKNOWN: &'static str = "Unknown";

/// The name of the product's executable.
pub const EXECUTABLE: &'static str = "Tally.exe";

/// The request by which the network probe asks for the product's name,
/// version and edition.
pub const PRODUCT_REQUEST: &'static str =
    "<ENVELOPE><HEADER><VERSION>1</VERSION><TALLYREQUEST>PRODUCT</TALLYREQUEST></HEADER></ENVELOPE>";

/// `i` is the first index of `items` whose item is wanted.
pub open spec fn first_at<T>(items: Seq<T>, wanted: spec_fn(T) -> bool, i: int) -> bool {
    &&& 0 <= i < items.len()
    &&& wanted(items[i])
    &&& forall|j: int| 0 <= j < i ==> !wanted(#[trigger] items[j])
}

/// The text of `s`, or `Unknown` where there is none.
pub open spec fn or_unknown(s: Option<String>) -> Seq<char> {
    match s {
        Some(s) => s@,
        None => UNKNOWN@,
    }
}

fn text_or_unknown(s: &Option<String>) -> (r: String)
    ensures
        r@ == or_unknown(*s),
{
    match s {
        Some(s) => s.clone(),
        None => String::from_str(UNKNOWN),
    }
}

/// One entry of the registry's list of installed programs.
#[derive(Clone, Debug, PartialEq, Eq)]
pub struct UninstallEntry {
    pub display_name: Option<String>,
    pub display_version: Option<String>,
    pub install_location: Option<String>,
}

impl UninstallEntry {
    /// The entry has a display name, and the name holds the product's
    /// keyword.
    pub open spec fn names_product(self) -> bool {
        self.display_name is Some && contains(self.display_name->Some_0@, PRODUCT_KEYWORD@)
    }

    /// The evidence that an entry naming the product gives: the family that
    /// its display name stands for, and its version and location, each
    /// `Unknown` where the entry has none.
    pub open spec fn evidence(self) -> Evidence {
        Evidence {
            installed: true,
            variant: Some(classify(self.display_name->Some_0@)),
            version: Some(or_unknown(self.display_version)),
            edition: None,
            install_path: Some(or_unknown(self.install_location)),
        }
    }

    /// Whether the entry names the product.
    pub fn is_product(&self) -> (r: bool)
        ensures
            r == self.names_product(),
    {
        match &self.display_name {
            Some(name) => holds_keyword(name.as_str()),
            None => false,
        }
    }
}

fn holds_keyword(name: &str) -> (r: bool)
    ensures
        r == contains(name@, PRODUCT_KEYWORD@),
{
    let chars = to_chars(name);
    let keyword = to_chars(PRODUCT_KEYWORD);
    has_substring(&chars, &keyword)
}

/// The evidence of the registry's uninstall entries: that of the first entry
/// which names the product, and none where no entry does.
pub fn registry_uninstall_evidence(entries: &Vec<UninstallEntry>) -> (r: Option<PartialEvidence>)
    ensures
        match r {
            Some(e) => exists|i: int|
                first_at(entries@, |entry: UninstallEntry| entry.names_product(), i) && e@
                    == entries@[i].evidence(),
            None => forall|i: int| 0 <= i < entries.len() ==> !(#[trigger] entries@[i]).names_product(),
        },
{
    let mut i: usize = 0;
    while i < entries.len()
        invariant
            i <= entries.len(),
            forall|j: int| 0 <= j < i ==> !(#[trigger] entries@[j]).names_product(),
        decreases entries.len() - i,
    {
        let entry = &entries[i];
        if let Some(name) = &entry.display_name {
            if holds_keyword(name.as_str()) {
                return Some(
                    PartialEvidence {
                        installed: true,
                        variant: Some(VariantTag::classify(name.as_str())),
                        version: Some(text_or_unknown(&entry.display_version)),
                        edition: None,
                        install_path: Some(text_or_unknown(&entry.install_location)),
                    },
                );
            }
        }
        i += 1;
    }
    None
}

/// One product that the vendor has entered in the registry.
#[derive(Clone, Debug, PartialEq, Eq)]
pub struct VendorProduct {
    pub name: String,
    pub version: Option<String>,
    pub install_dir: Option<String>,
}

impl VendorProduct {
    /// The evidence that a product of the vendor gives: the family that its
    /// name stands for, and its version and directory, each `Unknown` where
    /// the registry has none.
    pub open spec fn evidence(self) -> Evidence {
        Evidence {
            installed: true,
            variant: Some(classify(self.name@)),
            version: Some(or_unknown(self.version)),
            edition: None,
            install_path: Some(or_unknown(self.install_dir)),
        }
    }
}

/// The evidence of the vendor's registry keys: that of the first product
/// entered there, and none where there is no product.
pub fn vendor_registry_evidence(products: &Vec<VendorProduct>) -> (r: Option<PartialEvidence>)
    ensures
        match r {
            Some(e) => products.len() > 0 && e@ == products@[0].evidence(),
            None => products.len() == 0,
        },
{
    if products.len() == 0 {
        return None;
    }
    let product = &products[0];
    Some(
        PartialEvidence {
            installed: true,
            variant: Some(VariantTag::classify(product.name.as_str())),
            version: Some(text_or_unknown(&product.version)),
            edition: None,
            install_path: Some(text_or_unknown(&product.install_dir)),
        },
    )
}

/// One directory in which the product may stand, and what was found there.
#[derive(Clone, Debug, PartialEq, Eq)]
pub struct InstallCandidate {
    pub path: String,
    /// The directory exists.
    pub has_directory: bool,
    /// The directory holds the product's executable.
    pub has_executable: bool,
}

impl InstallCandidate {
    /// The directory exists and holds the executable.
    pub open spec fn holds_product(self) -> bool {
        self.has_directory && self.has_executable
    }

    /// The evidence that a directory holding the product gives: the family
    /// that its path stands for, and the path. The version is `Unknown`.
    pub open spec fn evidence(self) -> Evidence {
        Evidence {
            installed: true,
            variant: Some(classify(self.path@)),
            version: Some(UNKNOWN@),
            edition: None,
            install_path: Some(self.path@),
        }
    }
}

/// The evidence of the file system: that of the first directory which holds
/// the product, and none where no directory does.
pub fn install_path_evidence(candidates: &Vec<InstallCandidate>) -> (r: Option<PartialEvidence>)
    ensures
        match r {
            Some(e) => exists|i: int|
                first_at(candidates@, |c: InstallCandidate| c.holds_product(), i) && e@
                    == candidates@[i].evidence(),
            None => forall|i: int|
                0 <= i < candidates.len() ==> !(#[trigger] candidates@[i]).holds_product(),
        },
{
    let mut i: usize = 0;
    while i < candidates.len()
        invariant
            i <= candidates.len(),
            forall|j: int| 0 <= j < i ==> !(#[trigger] candidates@[j]).holds_product(),
        decreases candidates.len() - i,
    {
        let candidate = &candidates[i];
        if candidate.has_directory && candidate.has_executable {
            let evidence = PartialEvidence {
                installed: true,
                variant: Some(VariantTag::classify(candidate.path.as_str())),
                version: Some(String::from_str(UNKNOWN)),
                edition: None,
                install_path: Some(candidate.path.clone()),
            };
            return Some(evidence);
        }
        i += 1;
    }
    None
}

/// The directories in which the product is looked for, in the order in which
/// they are tried.
pub fn default_install_paths() -> (r: Vec<String>)
    ensures
        r.len() == 6,
        r@[0]@ == "C:\\Program Files\\Tally\\ERP9"@,
        r@[1]@ == "C:\\Program Files\\Tally\\TallyPrime"@,
        r@[2]@ == "C:\\Program Files\\Tally\\TallyERP9"@,
        r@[3]@ == "C:\\Program Files (x86)\\Tally\\ERP9"@,
        r@[4]@ == "C:\\Program Files (x86)\\Tally\\TallyPrime"@,
        r@[5]@ == "C:\\Program Files (x86)\\Tally\\TallyERP9"@,
{
    let mut paths: Vec<String> = Vec::new();
    paths.push(String::from_str("C:\\Program Files\\Tally\\ERP9"));
    paths.push(String::from_str("C:\\Program Files\\Tally\\TallyPrime"));
    paths.push(String::from_str("C:\\Program Files\\Tally\\TallyERP9"));
    paths.push(String::from_str("C:\\Program Files (x86)\\Tally\\ERP9"));
    paths.push(String::from_str("C:\\Program Files (x86)\\Tally\\TallyPrime"));
    paths.push(String::from_str("C:\\Program Files (x86)\\Tally\\TallyERP9"));
    paths
}

/// The evidence of the product's answer over the network: the family that
/// the product name stands for, where the answer gives one, and the version
/// and edition as they came.
pub fn network_evidence(
    product: Option<String>,
    version: Option<String>,
    edition: Option<String>,
) -> (r: PartialEvidence)
    ensures
        r@ == (Evidence {
            installed: true,
            variant: match product {
                Some(name) => Some(classify(name@)),
                None => None,
            },
            version: text_of(version),
            edition: text_of(edition),
            install_path: None,
        }),
{
    PartialEvidence {
        installed: true,
        variant: match product {
            Some(name) => Some(VariantTag::classify(name.as_str())),
            None => None,
        },
        version,
        edition,
        install_path: None,
    }
}

/// The evidence of the product's answer to a database query: the family
/// that the version text stands for, or the product name where it stands for
/// none, and the version as it came.
pub fn database_evidence(version: String, product: String) -> (r: PartialEvidence)
    ensures
        r@ == (Evidence {
            installed: true,
            variant: Some(classify_or(version@, product@)),
            version: Some(version@),
            edition: None,
            install_path: None,
        }),
{
    let variant = VariantTag::classify_or(version.as_str(), product.as_str());
    PartialEvidence {
        installed: true,
        variant: Some(variant),
        version: Some(version),
        edition: None,
        install_path: None,
    }
}

} // verus!
