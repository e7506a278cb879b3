//! Name normalization and the record types of the library.
//!
//! The operating system hands names back as fixed-size byte buffers that may
//! carry trailing garbage past a null terminator and need not be well-formed
//! text. [`to_string_lowercase`] turns such a buffer into a canonical
//! lowercase name: it cuts the buffer at the first null byte, validates the
//! prefix as UTF-8, and applies an ASCII-only case fold, so that process and
//! module names compare case-insensitively and independently of any locale.

use vstd::prelude::*;
use vstd::string::StringExecFns;
use vstd::utf8::{
    decode_utf8, encode_utf8, encode_utf8_decode_utf8, encode_utf8_valid_utf8, is_ascii_chars,
    is_ascii_chars_encode_utf8, valid_utf8,
};

use crate::errors::Errors;

verus! {

/// The ASCII-only case fold of one character: `'A'` to `'Z'` map to `'a'`
/// to `'z'`, every other character is unchanged.
pub open spec fn lower_char(c: char) -> char {
    if 0x41 <= c as u32 && c as u32 <= 0x5a {
        (((c as u32) + 0x20) as u32) as char
    } else {
        c
    }
}

/// The ASCII-only case fold of a character sequence.
pub open spec fn lower_chars(s: Seq<char>) -> Seq<char> {
    s.map_values(|c: char| lower_char(c))
}

/// True when position `i` holds the first null byte of `bytes`.
pub open spec fn is_first_null(bytes: Seq<u8>, i: int) -> bool {
    &&& 0 <= i < bytes.len()
    &&& bytes[i] == 0
    &&& forall|j: int| 0 <= j < i ==> bytes[j] != 0
}

/// True when `bytes` contains a null terminator.
pub open spec fn has_terminator(bytes: Seq<u8>) -> bool {
    exists|i: int| is_first_null(bytes, i)
}

/// The bytes before the first null terminator.
pub open spec fn name_prefix(bytes: Seq<u8>) -> Seq<u8>
    recommends
        has_terminator(bytes),
{
    bytes.take(choose|i: int| is_first_null(bytes, i))
}

/// The canonical name carried by a raw buffer: its pre-null prefix, decoded
/// as UTF-8 and case-folded.
pub open spec fn normalized_name(bytes: Seq<u8>) -> Seq<char>
    recommends
        has_terminator(bytes),
        valid_utf8(name_prefix(bytes)),
{
    lower_chars(decode_utf8(name_prefix(bytes)))
}

/// The name a raw buffer is displayed under: its canonical lowercase name
/// when the buffer decodes, and a sentinel placeholder otherwise.
pub open spec fn displayed_name(bytes: Seq<u8>) -> Seq<char> {
    if has_terminator(bytes) && valid_utf8(name_prefix(bytes)) {
        normalized_name(bytes)
    } else {
        "<Module Name>"@
    }
}

/// The first null position is unique.
proof fn lemma_first_null_unique(bytes: Seq<u8>, i: int, j: int)
    requires
        is_first_null(bytes, i),
        is_first_null(bytes, j),
    ensures
        i == j,
{
    if i < j {
        assert(bytes[i] != 0);
    } else if j < i {
        assert(bytes[j] != 0);
    }
}

/// Position of the first null byte of `buffer`, if any.
fn find_terminator(buffer: &[u8]) -> (r: Option<usize>)
    ensures
        match r {
            Some(i) => is_first_null(buffer@, i as int),
            None => !has_terminator(buffer@),
        },
{
    let mut i: usize = 0;
    while i < buffer.len()
        invariant
            i <= buffer@.len(),
            forall|j: int| 0 <= j < i ==> buffer@[j] != 0,
        decreases buffer@.len() - i,
    {
        if buffer[i] == 0 {
            return Some(i);
        }
        i += 1;
    }
    None
}

/// Relies on core::str::from_utf8: it succeeds exactly when the bytes are
/// valid UTF-8, and the resulting string is their decoding.
#[verifier::external_body]
fn decode_name(bytes: &[u8]) -> (r: Option<&str>)
    ensures
        r is Some <==> valid_utf8(bytes@),
        r is Some ==> r->0@ == decode_utf8(bytes@),
{
    core::str::from_utf8(bytes).ok()
}

/// Relies on str::to_ascii_lowercase: ASCII letters 'A' to 'Z' are mapped to
/// 'a' to 'z'; all other characters are unchanged.
#[verifier::external_body]
pub(crate) fn ascii_lowercase(s: &str) -> (r: String)
    ensures
        r@ == lower_chars(s@),
{
    s.to_ascii_lowercase()
}

/// Conversion of raw identifier buffers into normalized lowercase strings.
pub trait TransformName where Self: View<V = Seq<u8>> {
    /// Decodes a raw, possibly null-terminated, possibly malformed byte
    /// buffer into a canonical lowercase name.
    ///
    /// The buffer is cut at its first null byte; a buffer without one is
    /// rejected rather than silently truncated at the buffer boundary. The
    /// prefix must be well-formed UTF-8; it is then lowercased with an
    /// ASCII-only case fold, so non-ASCII characters pass through
    /// unchanged.
    fn to_string_lowercase(&self) -> (r: Result<String, Errors>)
        ensures
            match r {
                Ok(s) => has_terminator(self@) && valid_utf8(name_prefix(self@)) && s@
                    == normalized_name(self@),
                Err(Errors::NoTerminator) => !has_terminator(self@),
                Err(Errors::InvalidEncoding) => has_terminator(self@) && !valid_utf8(
                    name_prefix(self@),
                ),
                Err(_) => false,
            },
    ;
}

impl TransformName for [u8] {
    fn to_string_lowercase(&self) -> (r: Result<String, Errors>) {
        match find_terminator(self) {
            None => Err(Errors::NoTerminator),
            Some(i) => {
                proof {
                    let k = choose|j: int| is_first_null(self@, j);
                    lemma_first_null_unique(self@, k, i as int);
                    assert(name_prefix(self@) =~= self@.subrange(0, i as int));
                }
                let prefix: &[u8] = &self[0..i];
                match decode_name(prefix) {
                    None => Err(Errors::InvalidEncoding),
                    Some(s) => Ok(ascii_lowercase(s)),
                }
            },
        }
    }
}

/// The normalizer round-trips: normalizing the bytes of an already-
/// lowercase, null-terminated ASCII string yields that same string.
pub proof fn lemma_normalize_round_trip(name: Seq<char>)
    requires
        is_ascii_chars(name),
        forall|i: int| 0 <= i < name.len() ==> (#[trigger] name[i]) as u32 != 0,
        forall|i: int| 0 <= i < name.len() ==> lower_char(#[trigger] name[i]) == name[i],
    ensures
        has_terminator(encode_utf8(name) + seq![0u8]),
        valid_utf8(name_prefix(encode_utf8(name) + seq![0u8])),
        normalized_name(encode_utf8(name) + seq![0u8]) == name,
{
    let encoded = encode_utf8(name);
    let bytes = encoded + seq![0u8];
    let n = encoded.len() as int;
    is_ascii_chars_encode_utf8(name);
    assert(bytes[n] == 0);
    assert forall|i: int| 0 <= i < n implies bytes[i] != 0 by {
        assert(bytes[i] == encoded[i]);
        assert(encoded[i] == name[i] as u8);
        assert('\0' <= name[i] <= '\u{7f}');
    }
    assert(is_first_null(bytes, n));
    let k = choose|i: int| is_first_null(bytes, i);
    lemma_first_null_unique(bytes, k, n);
    assert(name_prefix(bytes) =~= encoded);
    encode_utf8_valid_utf8(name);
    encode_utf8_decode_utf8(name);
    assert(lower_chars(name) =~= name);
}

/// The name a raw buffer is displayed under, as an owned string: the
/// buffer's canonical lowercase name, or the sentinel placeholder when the
/// buffer does not decode.
pub fn display_name(buffer: &[u8]) -> (r: String)
    ensures
        r@ == displayed_name(buffer@),
{
    match buffer.to_string_lowercase() {
        Ok(s) => s,
        Err(_) => String::from_str("<Module Name>"),
    }
}

/// Metadata of one module (the main executable or a library) loaded in a
/// process: its canonical lowercase name, load base address, and image size.
#[derive(Debug, Clone)]
pub struct ModuleData {
    pub module_name: String,
    pub module_addr: usize,
    pub module_size: usize,
}

/// What the operating system reports about one loaded module: its raw name
/// buffer and its load information.
#[derive(Debug, Clone)]
pub struct ModuleSnapshot {
    pub name_buffer: Vec<u8>,
    pub base_address: usize,
    pub image_size: usize,
}

/// What the enumeration reports about one running process: its identifier,
/// whether a handle to it could be opened, its raw executable-name buffer,
/// and its loaded modules.
#[derive(Debug, Clone)]
pub struct ProcessCandidate {
    pub pid: u32,
    pub openable: bool,
    pub name_buffer: Vec<u8>,
    pub modules: Vec<ModuleSnapshot>,
}

/// A located process: its identifier, its canonical lowercase name, and its
/// loaded modules in enumeration order.
///
/// The list keeps duplicate-named modules as separate entries, so no record
/// is silently overwritten; callers that want a name-keyed mapping can build
/// one and choose their own overwrite policy.
#[derive(Debug, Clone)]
pub struct ProcessData {
    pub id: u32,
    pub name: String,
    pub module_list: Vec<ModuleData>,
}

impl ProcessData {
    /// True when the record lists no modules.
    pub fn is_empty(&self) -> (r: bool)
        ensures
            r == (self.module_list@.len() == 0),
    {
        self.module_list.len() == 0
    }
}

} // verus!
