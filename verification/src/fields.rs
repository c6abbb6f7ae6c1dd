//! How single fields of the records are shaped: the text of a hardware
//! address, the masked product id, the name of a processor architecture,
//! a size in mebibytes, and which interfaces are worth reporting.

use crate::models::NetworkInfo;
use crate::text::{to_chars, trim, trim_range};
use vstd::prelude::*;
use vstd::string::StringExecFns;

verus! {

/// The digits of a hexadecimal number, in order.
pub const HEX_DIGITS: &'static str = "0123456789ABCDEF";

/// The number of bytes in a mebibyte.
pub const BYTES_PER_MB: u64 = 1048576;

/// The two hexadecimal digits of a byte, in upper case.
pub open spec fn hex_pair(byte: u8) -> Seq<char> {
    seq![HEX_DIGITS@[(byte / 16) as int], HEX_DIGITS@[(byte % 16) as int]]
}

/// The text of a hardware address: the hexadecimal digits of its bytes,
/// with a colon between one byte and the next.
pub open spec fn mac_text(bytes: Seq<u8>) -> Seq<char>
    decreases bytes.len(),
{
    if bytes.len() == 0 {
        Seq::empty()
    } else if bytes.len() == 1 {
        hex_pair(bytes[0])
    } else {
        mac_text(bytes.drop_last()) + seq![':'] + hex_pair(bytes.last())
    }
}

/// Writes a hardware address as text.
pub fn format_mac(address: &[u8]) -> (r: String)
    ensures
        r@ == mac_text(address@),
{
    proof {
        reveal_strlit("0123456789ABCDEF");
        reveal_strlit(":");
    }
    let mut out = String::new();
    let mut i: usize = 0;
    while i < address.len()
        invariant
            i <= address.len(),
            HEX_DIGITS@.len() == 16,
            ":"@ == seq![':'],
            out@ == mac_text(address@.take(i as int)),
        decreases address.len() - i,
    {
        let byte = address[i];
        let high: usize = (byte / 16) as usize;
        let low: usize = (byte % 16) as usize;
        let ghost before = out@;
        if i > 0 {
            out.append(":");
        }
        out.append(HEX_DIGITS.substring_char(high, high + 1));
        out.append(HEX_DIGITS.substring_char(low, low + 1));
        proof {
            let prefix = address@.take(i as int + 1);
            assert(prefix.drop_last() =~= address@.take(i as int));
            assert(HEX_DIGITS@.subrange(high as int, high + 1) + HEX_DIGITS@.subrange(
                low as int,
                low + 1,
            ) =~= hex_pair(byte));
            if i > 0 {
                assert(out@ =~= before + seq![':'] + hex_pair(byte));
            } else {
                assert(out@ =~= hex_pair(byte));
            }
        }
        i += 1;
    }
    assert(address@.take(i as int) =~= address@);
    out
}

/// A product id with all but its first five characters replaced by three
/// dots; an id of no more than eight characters stays as it is.
pub open spec fn masked_id(id: Seq<char>) -> Seq<char> {
    if id.len() > 8 {
        id.take(5) + "..."@
    } else {
        id
    }
}

/// Masks a product id, so that it is not given out whole.
pub fn mask_product_id(id: &str) -> (r: String)
    ensures
        r@ == masked_id(id@),
{
    if id.unicode_len() > 8 {
        let mut out = String::from_str(id.substring_char(0, 5));
        out.append("...");
        out
    } else {
        String::from_str(id)
    }
}

/// The name of the processor architecture that the system reports under
/// `code`.
pub open spec fn arch_text(code: u16) -> Seq<char> {
    if code == 9 {
        "x86_64"@
    } else if code == 12 {
        "arm64"@
    } else if code == 0 {
        "x86"@
    } else if code == 5 {
        "arm"@
    } else {
        "unknown"@
    }
}

/// Names a processor architecture.
pub fn arch_name(code: u16) -> (r: &'static str)
    ensures
        r@ == arch_text(code),
{
    if code == 9 {
        "x86_64"
    } else if code == 12 {
        "arm64"
    } else if code == 0 {
        "x86"
    } else if code == 5 {
        "arm"
    } else {
        "unknown"
    }
}

/// A number of bytes in whole mebibytes.
pub fn bytes_to_mb(bytes: u64) -> (r: u64)
    ensures
        r == bytes / BYTES_PER_MB,
{
    bytes / BYTES_PER_MB
}

/// `text` without the white space at either end.
pub fn trimmed(text: &str) -> (r: String)
    ensures
        r@ == trim(text@),
{
    let chars = to_chars(text);
    let (from, to) = trim_range(&chars, 0, chars.len());
    assert(chars@.subrange(0, chars.len() as int) =~= text@);
    String::from_str(text.substring_char(from, to))
}

impl NetworkInfo {
    /// An interface is worth reporting where it has a name and an address.
    pub open spec fn reportable(&self) -> bool {
        self.interface_name is Some && (self.ipv4_addresses is Some || self.ipv6_addresses
            is Some)
    }

    /// Whether the interface is worth reporting.
    pub fn is_reportable(&self) -> (r: bool)
        ensures
            r == self.reportable(),
    {
        self.interface_name.is_some() && (self.ipv4_addresses.is_some()
            || self.ipv6_addresses.is_some())
    }
}

} // verus!
