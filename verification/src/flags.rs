//! Decoding of the Apple-specific `flags` integer.
//!
//! The metadata plist of an `emlx` message may carry a 64-bit integer
//! under the key `"flags"`.  Each named attribute of a message sits at a
//! fixed bit position of that integer; counters are isolated by a
//! single-bit mask and then shifted right by a fixed amount.
use vstd::prelude::*;

use crate::ParseError;

verus! {

/// Declares plist::Dictionary, the string-keyed metadata map, as an
/// opaque type; its integer entries are modelled by [`dict_unsigned`].
#[verifier::external_type_specification]
#[verifier::external_body]
pub struct ExDictionary(plist::Dictionary);

/// The entries of a plist dictionary that hold an integer representable
/// as an unsigned 64-bit value, as a map from their string keys to
/// those integers.
pub uninterp spec fn dict_unsigned(dictionary: plist::Dictionary) -> Map<Seq<char>, u64>;

/// Whether the bytes decode as a plist document of any encoding, per
/// the external plist decoder; a function of the bytes alone.
pub uninterp spec fn plist_decodes(content: Seq<u8>) -> bool;

/// What decoding the bytes as a plist yields at its root: `None` when
/// the bytes do not decode, or decode to a root that is not a
/// dictionary; otherwise the root dictionary's integer entries that
/// are representable as unsigned 64-bit values, keyed by their string
/// keys.  A function of the bytes alone.
pub uninterp spec fn plist_root_unsigned(content: Seq<u8>) -> Option<Map<Seq<char>, u64>>;

/// How reading the metadata's root dictionary can fail: the bytes are
/// not a plist at all (with the decoder's error text), or they decode
/// to a root value that is not a dictionary.
enum PlistRootError {
    Undecodable(String),
    NotDictionary,
}

/// Relies on plist::Value::from_reader, which decodes a plist of any
/// encoding — here read from an in-memory cursor over the given bytes,
/// so its outcome depends on the bytes alone — and on
/// plist::Value::into_dictionary, which is Some exactly when the
/// decoded root is a dictionary.  A decode failure is handed back as
/// the decoder error's display text.
#[verifier::external_body]
fn root_dictionary_from_bytes(content: &[u8]) -> (r: Result<plist::Dictionary, PlistRootError>)
    ensures
        r is Ok <==> (plist_decodes(content@) && plist_root_unsigned(content@) is Some),
        r matches Ok(dictionary) ==> Some(dict_unsigned(dictionary)) == plist_root_unsigned(
            content@,
        ),
        r matches Err(e) ==> (e is NotDictionary <==> plist_decodes(content@)),
{
    match plist::Value::from_reader(std::io::Cursor::new(content)) {
        Ok(value) => match value.into_dictionary() {
            Some(dictionary) => Ok(dictionary),
            None => Err(PlistRootError::NotDictionary),
        },
        Err(e) => Err(PlistRootError::Undecodable(e.to_string())),
    }
}

/// Relies on plist::Dictionary::get and plist::Value::as_unsigned_integer:
/// the entry under `key`, where it is an integer representable as u64.
#[verifier::external_body]
fn dictionary_unsigned(dictionary: &plist::Dictionary, key: &str) -> (r: Option<u64>)
    ensures
        r matches Some(value) ==> dict_unsigned(*dictionary).contains_key(key@) && dict_unsigned(
            *dictionary,
        )[key@] == value,
        r is None ==> !dict_unsigned(*dictionary).contains_key(key@),
{
    match dictionary.get(key) {
        Some(value) => value.as_unsigned_integer(),
        None => None,
    }
}

/// Additional flags on `emlx` messages.
///
/// They are retrieved by decoding the `flags` integer found in the
/// metadata plist.
#[derive(Debug, Copy, Clone, PartialEq, Eq, Structural)]
pub struct Flags {
    pub is_read: bool,
    pub is_deleted: bool,
    pub is_answered: bool,
    pub is_encrypted: bool,
    pub is_flagged: bool,
    pub is_recent: bool,
    pub is_draft: bool,
    pub is_initial: bool,
    pub is_forwarded: bool,
    pub is_redirected: bool,
    pub attachment_count: u32,
    pub priority: u32,
    pub is_signed: bool,
    pub is_junk: bool,
    pub is_not_junk: bool,
    pub font_size_delta: u32,
    pub has_junk_set: bool,
    pub has_highlighted_text: bool,
    pub unused: bool,
}

/// True exactly when the bit at `index` of `value` is set.
pub open spec fn flag_bit(value: u64, index: u64) -> bool {
    value & (1u64 << index) != 0u64
}

/// The bit at `index` of `value`, isolated by a single-bit mask and
/// shifted right by `shift`.
pub open spec fn counter_field(value: u64, index: u64, shift: u64) -> u64 {
    (value & (1u64 << index)) >> shift
}

/// The record with every boolean cleared and every counter zero.
pub open spec fn flags_empty() -> Flags {
    Flags {
        is_read: false,
        is_deleted: false,
        is_answered: false,
        is_encrypted: false,
        is_flagged: false,
        is_recent: false,
        is_draft: false,
        is_initial: false,
        is_forwarded: false,
        is_redirected: false,
        attachment_count: 0,
        priority: 0,
        is_signed: false,
        is_junk: false,
        is_not_junk: false,
        font_size_delta: 0,
        has_junk_set: false,
        has_highlighted_text: false,
        unused: false,
    }
}

/// The bit layout of the `flags` integer: booleans at bits 0-9, 23-25
/// and 29-31, counters at bits 10 (shift 6), 16 (shift 7) and 26
/// (shift 7).
pub open spec fn flags_of(value: u64) -> Flags {
    Flags {
        is_read: flag_bit(value, 0),
        is_deleted: flag_bit(value, 1),
        is_answered: flag_bit(value, 2),
        is_encrypted: flag_bit(value, 3),
        is_flagged: flag_bit(value, 4),
        is_recent: flag_bit(value, 5),
        is_draft: flag_bit(value, 6),
        is_initial: flag_bit(value, 7),
        is_forwarded: flag_bit(value, 8),
        is_redirected: flag_bit(value, 9),
        attachment_count: counter_field(value, 10, 6) as u32,
        priority: counter_field(value, 16, 7) as u32,
        is_signed: flag_bit(value, 23),
        is_junk: flag_bit(value, 24),
        is_not_junk: flag_bit(value, 25),
        font_size_delta: counter_field(value, 26, 7) as u32,
        has_junk_set: flag_bit(value, 29),
        has_highlighted_text: flag_bit(value, 30),
        unused: flag_bit(value, 31),
    }
}

impl Default for Flags {
    /// A record with no attribute set, used when the metadata holds no
    /// usable `flags` integer.
    fn default() -> (r: Flags)
        ensures
            r == flags_empty(),
    {
        Flags {
            is_read: false,
            is_deleted: false,
            is_answered: false,
            is_encrypted: false,
            is_flagged: false,
            is_recent: false,
            is_draft: false,
            is_initial: false,
            is_forwarded: false,
            is_redirected: false,
            attachment_count: 0,
            priority: 0,
            is_signed: false,
            is_junk: false,
            is_not_junk: false,
            font_size_delta: 0,
            has_junk_set: false,
            has_highlighted_text: false,
            unused: false,
        }
    }
}

impl Flags {
    /// Decode every field of the record from the raw `flags` integer.
    ///
    /// Total over all 64-bit inputs: every bit pattern is legal.
    pub fn decoding(value: u64) -> (r: Flags)
        ensures
            r == flags_of(value),
    {
        let mut is_read: bool = false;
        let mut is_deleted: bool = false;
        let mut is_answered: bool = false;
        let mut is_encrypted: bool = false;
        let mut is_flagged: bool = false;
        let mut is_recent: bool = false;
        let mut is_draft: bool = false;
        let mut is_initial: bool = false;
        let mut is_forwarded: bool = false;
        let mut is_redirected: bool = false;
        let mut attachment_count: u32 = 0;
        let mut priority: u32 = 0;
        let mut is_signed: bool = false;
        let mut is_junk: bool = false;
        let mut is_not_junk: bool = false;
        let mut font_size_delta: u32 = 0;
        let mut has_junk_set: bool = false;
        let mut has_highlighted_text: bool = false;
        let mut unused: bool = false;

        Self::decode_bool(0, value, &mut is_read);
        Self::decode_bool(1, value, &mut is_deleted);
        Self::decode_bool(2, value, &mut is_answered);
        Self::decode_bool(3, value, &mut is_encrypted);
        Self::decode_bool(4, value, &mut is_flagged);
        Self::decode_bool(5, value, &mut is_recent);
        Self::decode_bool(6, value, &mut is_draft);
        Self::decode_bool(7, value, &mut is_initial);
        Self::decode_bool(8, value, &mut is_forwarded);
        Self::decode_bool(9, value, &mut is_redirected);
        Self::decode_usize(10, value, 6, &mut attachment_count);
        Self::decode_usize(16, value, 7, &mut priority);
        Self::decode_bool(23, value, &mut is_signed);
        Self::decode_bool(24, value, &mut is_junk);
        Self::decode_bool(25, value, &mut is_not_junk);
        Self::decode_usize(26, value, 7, &mut font_size_delta);
        Self::decode_bool(29, value, &mut has_junk_set);
        Self::decode_bool(30, value, &mut has_highlighted_text);
        Self::decode_bool(31, value, &mut unused);

        Flags {
            is_read,
            is_deleted,
            is_answered,
            is_encrypted,
            is_flagged,
            is_recent,
            is_draft,
            is_initial,
            is_forwarded,
            is_redirected,
            attachment_count,
            priority,
            is_signed,
            is_junk,
            is_not_junk,
            font_size_delta,
            has_junk_set,
            has_highlighted_text,
            unused,
        }
    }

    /// Store whether the bit at `index` of `value` is set.
    pub fn decode_bool(index: i32, value: u64, into: &mut bool)
        requires
            0 <= index < 64,
        ensures
            *final(into) == flag_bit(value, index as u64),
    {
        *into = (value & (1u64 << (index as u64))) > 0
    }

    /// Store the bit at `index` of `value`, shifted right by `shift`,
    /// truncated to 32 bits as the record's counters are.
    pub fn decode_usize(index: i32, value: u64, shift: usize, into: &mut u32)
        requires
            0 <= index < 64,
            shift < 64,
        ensures
            *final(into) == counter_field(value, index as u64, shift as u64) as u32,
    {
        *into = #[verifier::truncate] (((value & (1u64 << (index as u64))) >> (shift as u64)) as u32)
    }
}

/// The flags record that a metadata dictionary determines: the decoded
/// `"flags"` integer where the dictionary holds one, the all-clear
/// record otherwise.
pub open spec fn flags_of_dictionary(dictionary: plist::Dictionary) -> Flags {
    if dict_unsigned(dictionary).contains_key("flags"@) {
        flags_of(dict_unsigned(dictionary)["flags"@])
    } else {
        flags_empty()
    }
}

/// Decode the metadata block into its plist dictionary and the flags
/// record that the dictionary's `"flags"` entry determines.
///
/// A block that does not decode as a plist, or whose root is not a
/// dictionary, is rejected.  A missing `"flags"` entry, or one that is
/// not an unsigned integer, is a tolerated degraded mode and yields
/// the all-clear record.
pub fn detect(content: &[u8]) -> (r: Result<(Flags, plist::Dictionary), ParseError>)
    ensures
        r is Ok <==> (plist_decodes(content@) && plist_root_unsigned(content@) is Some),
        r matches Ok((flags, dictionary)) ==> Some(dict_unsigned(dictionary))
            == plist_root_unsigned(content@) && flags == flags_of_dictionary(dictionary),
        r matches Err(e) ==> e matches ParseError::InvalidPlistData(_),
        plist_decodes(content@) && plist_root_unsigned(content@) is None ==> (match r {
            Err(ParseError::InvalidPlistData(reason)) => reason@
                == "Plist root is not a dictionary"@,
            _ => false,
        }),
{
    let dictionary = match root_dictionary_from_bytes(content) {
        Ok(dictionary) => dictionary,
        Err(PlistRootError::Undecodable(reason)) => {
            return Err(ParseError::InvalidPlistData(reason));
        },
        Err(PlistRootError::NotDictionary) => {
            return Err(ParseError::InvalidPlistData("Plist root is not a dictionary".to_owned()));
        },
    };
    let flags = match dictionary_unsigned(&dictionary, "flags") {
        Some(data) => Flags::decoding(data),
        None => Flags::default(),
    };
    Ok((flags, dictionary))
}

/// Decoding is deterministic: two decodings of the same integer yield
/// bit-identical records.
pub proof fn lemma_decoding_deterministic(first: Flags, second: Flags, value: u64)
    requires
        first == flags_of(value),
        second == flags_of(value),
    ensures
        first == second,
{
}

} // verus!
