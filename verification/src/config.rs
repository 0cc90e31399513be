use vstd::prelude::*;
use vstd::string::StrSliceExecFns;
use crate::text::str_eq;

verus! {

/// Configuration for the side tools: holds the obfuscated third-party API
/// key shipped with the binary.
pub struct ToolsConfig;

/// Whether a stored (obfuscated) key can be turned into a usable key: it is
/// non-empty, is not one of the known placeholder values, and every
/// character is printable ASCII low enough that the shift stays in ASCII.
pub open spec fn key_usable(stored: Seq<char>) -> bool {
    &&& stored.len() > 0
    &&& stored != "INSERT_YOUR_API_KEY_HERE"@
    &&& stored != "XntqB`st`k@ohJ`z012"@
    &&& forall|i: int| 0 <= i < stored.len() ==> 32 <= #[trigger] stored[i] as int <= 125
}

/// Whether `key` is the deobfuscation of `stored`: every character shifted
/// up by one code point.
pub open spec fn is_deobfuscated(stored: Seq<char>, key: Seq<char>) -> bool {
    key.len() == stored.len() && forall|i: int| 0 <= i < stored.len()
        ==> #[trigger] key[i] as int == stored[i] as int + 1
}

/// Relies on `String::from_utf8`: ASCII bytes are valid UTF-8 and decode to
/// exactly one character per byte, with the same code point.
#[verifier::external_body]
fn string_from_ascii(v: Vec<u8>) -> (r: String)
    requires
        forall|i: int| 0 <= i < v@.len() ==> v@[i] < 128,
    ensures
        r@.len() == v@.len(),
        forall|i: int| 0 <= i < v@.len() ==> #[trigger] r@[i] as int == v@[i] as int,
{
    match String::from_utf8(v) {
        Ok(s) => s,
        Err(_) => String::new(),
    }
}

/// Undoes the storage obfuscation: each stored character is one code point
/// below the real key character. Returns `None` for an empty value, a known
/// placeholder, or anything outside printable ASCII.
pub fn deobfuscate_key(stored: &str) -> (r: Option<String>)
    ensures
        r is Some <==> key_usable(stored@),
        r matches Some(k) ==> is_deobfuscated(stored@, k@),
{
    let n = stored.unicode_len();
    if n == 0 {
        return None;
    }
    let mut shifted: Vec<u8> = Vec::new();
    let mut i: usize = 0;
    while i < n
        invariant
            n == stored@.len(),
            i <= n,
            shifted@.len() == i,
            forall|j: int| 0 <= j < i ==> 32 <= #[trigger] stored@[j] as int <= 125,
            forall|j: int| 0 <= j < i ==> #[trigger] shifted@[j] as int == stored@[j] as int + 1,
        decreases n - i,
    {
        let code = stored.get_char(i) as u32;
        if code < 32 || code > 125 {
            return None;
        }
        shifted.push((code + 1) as u8);
        i = i + 1;
    }
    if str_eq(stored, "INSERT_YOUR_API_KEY_HERE") || str_eq(stored, "XntqB`st`k@ohJ`z012") {
        return None;
    }
    let key = string_from_ascii(shifted);
    Some(key)
}

impl ToolsConfig {
    /// The obfuscated key as shipped. The placeholder below stands for a
    /// real deployment value; until one is set, the getter returns `None`.
    pub open spec fn stored_key() -> Seq<char> {
        "INSERT_YOUR_API_KEY_HERE"@
    }

    /// The background-removal service's API key, deobfuscated from the
    /// value shipped in the binary, or `None` while no valid key is set.
    pub fn get_removebg_api_key() -> (r: Option<String>)
        ensures
            r is Some <==> key_usable(Self::stored_key()),
            r matches Some(k) ==> is_deobfuscated(Self::stored_key(), k@),
    {
        deobfuscate_key("INSERT_YOUR_API_KEY_HERE")
    }
}

} // verus!
