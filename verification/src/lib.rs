//! Parser for Apple Mail `emlx` containers.
//!
//! An `emlx` file is a self-describing byte stream: a decimal byte-count
//! header closed by a line feed, the raw mail message, and a trailing
//! plist metadata block.  This crate locates the header, splits the
//! buffer into message and metadata, and decodes the Apple-specific
//! `flags` integer found in the metadata into a typed record.
use vstd::prelude::*;

mod flags;
mod parse;
mod unicode;

pub use flags::detect;
pub use flags::Flags;
pub use parse::length;
pub use parse::split;
pub use plist::Dictionary;

verus! {

/// Everything that can go wrong while taking an `emlx` container apart.
///
/// Every error is terminal: no recovery or repair is attempted.
#[derive(Debug)]
pub enum ParseError {
    /// The byte-count header decoded to zero.
    EmptyByteCount,
    /// No line-feed byte closes the header.
    MissingTerminator,
    /// The header bytes in the given range are not valid UTF-8.
    InvalidUnicode(usize, usize),
    /// The header text is not an unsigned decimal integer.
    InvalidByteCount(String),
    /// The buffer is too short to hold the declared message and a
    /// non-empty metadata block; carries the length that remained
    /// after the header terminator.
    UnexpectedEnding(usize),
    /// The metadata block is not a plist whose root is a dictionary.
    InvalidPlistData(String),
}

/// The parts of an `emlx` message, the result of [`parse_emlx`].
#[derive(Debug)]
pub struct Mail<'a> {
    /// The raw `eml` message bytes: exactly as many as the header
    /// declared, borrowed from the input buffer.
    pub message: &'a [u8],
    /// The Apple-specific flags of the message.  If the metadata holds
    /// no usable `flags` integer, every field is false or zero.
    pub flags: Flags,
    /// The metadata dictionary found in the plist part.
    pub dictionary: Dictionary,
}

/// Parse one `emlx` container into its message bytes, its flags and
/// its metadata dictionary.
pub fn parse_emlx<'a>(content: &'a [u8]) -> (r: Result<Mail<'a>, ParseError>)
    ensures
        ({
            let s = content@;
            let metadata = parse::body_of(s).skip(parse::header_count(s));
            match r {
                Ok(mail) => parse::header_ok(s) && parse::header_count(s) < parse::body_of(s).len()
                    && mail.message@ == parse::body_of(s).take(parse::header_count(s))
                    && flags::plist_decodes(metadata) && flags::plist_root_unsigned(metadata)
                    is Some && Some(flags::dict_unsigned(mail.dictionary))
                    == flags::plist_root_unsigned(metadata) && mail.flags
                    == flags::flags_of_dictionary(mail.dictionary),
                Err(e) => match e {
                    ParseError::MissingTerminator => !parse::has_term(s),
                    ParseError::InvalidUnicode(lo, hi) => parse::has_term(s)
                        && !vstd::utf8::valid_utf8(parse::header_of(s)) && lo == 0 && hi as int
                        == parse::header_end(s),
                    ParseError::InvalidByteCount(text) => parse::has_term(s)
                        && vstd::utf8::valid_utf8(parse::header_of(s)) && !parse::parses_as_usize(
                        parse::header_of(s),
                    ) && text@ == vstd::utf8::decode_utf8(parse::header_of(s)),
                    ParseError::EmptyByteCount => parse::has_term(s) && vstd::utf8::valid_utf8(
                        parse::header_of(s),
                    ) && parse::parses_as_usize(parse::header_of(s)) && parse::header_count(s)
                        == 0,
                    ParseError::UnexpectedEnding(remaining) => parse::header_ok(s)
                        && remaining as int == parse::body_of(s).len() && parse::body_of(s).len()
                        <= parse::header_count(s),
                    ParseError::InvalidPlistData(reason) => parse::header_ok(s)
                        && parse::header_count(s) < parse::body_of(s).len() && !(
                    flags::plist_decodes(metadata) && flags::plist_root_unsigned(metadata)
                        is Some) && (flags::plist_decodes(metadata) ==> reason@
                        == "Plist root is not a dictionary"@),
                },
            }
        }),
{
    let (message, plist_bytes) = match parse::split(content) {
        Ok(parts) => parts,
        Err(e) => {
            return Err(e);
        },
    };
    let (flags, dictionary) = match flags::detect(plist_bytes) {
        Ok(parts) => parts,
        Err(e) => {
            return Err(e);
        },
    };
    Ok(Mail { message, flags, dictionary })
}

} // verus!
