//! Locating the byte-count header and splitting the container.
//!
//! An `emlx` container starts with a decimal byte count closed by a
//! line feed; spaces between the count and the line feed are tolerated
//! padding.  The message body follows the line feed and runs for
//! exactly the declared number of bytes; everything after it is the
//! metadata block, which must be non-empty.
use vstd::prelude::*;

use crate::ParseError;

verus! {

/// ASCII whitespace, as the header scan understands it: space, tab,
/// line feed, form feed or carriage return.
pub open spec fn is_ascii_ws(byte: u8) -> bool {
    byte == 0x20 || byte == 0x09 || byte == 0x0a || byte == 0x0c || byte == 0x0d
}

/// Index of the first line feed at or after `start`, or -1 if there is
/// none.
pub open spec fn lf_from(bytes: Seq<u8>, start: int) -> int
    decreases bytes.len() - start,
{
    if start < 0 || start >= bytes.len() {
        -1
    } else if bytes[start] == 0x0a {
        start
    } else {
        lf_from(bytes, start + 1)
    }
}

/// Index of the first ASCII whitespace byte at or after `start`, or -1
/// if there is none.
pub open spec fn ws_from(bytes: Seq<u8>, start: int) -> int
    decreases bytes.len() - start,
{
    if start < 0 || start >= bytes.len() {
        -1
    } else if is_ascii_ws(bytes[start]) {
        start
    } else {
        ws_from(bytes, start + 1)
    }
}

/// An ASCII decimal digit.
pub open spec fn is_digit(byte: u8) -> bool {
    0x30 <= byte <= 0x39
}

/// The digit portion of a header: an optional leading `+` is stripped,
/// as Rust's unsigned-integer parsing strips it.
pub open spec fn digit_seq(header: Seq<u8>) -> Seq<u8> {
    if header.len() > 0 && header[0] == 0x2b {
        header.skip(1)
    } else {
        header
    }
}

pub open spec fn all_digits(bytes: Seq<u8>) -> bool {
    forall|i: int| 0 <= i < bytes.len() ==> is_digit(bytes[i])
}

/// The value of a sequence of ASCII digits read as a decimal numeral.
pub open spec fn dec_value(digits: Seq<u8>) -> int
    decreases digits.len(),
{
    if digits.len() == 0 {
        0
    } else {
        dec_value(digits.drop_last()) * 10 + (digits.last() - 0x30)
    }
}

/// True exactly on the headers that Rust would parse as a `usize`:
/// an optional `+`, then at least one digit, naming a value that fits.
pub open spec fn parses_as_usize(header: Seq<u8>) -> bool {
    let digits = digit_seq(header);
    digits.len() > 0 && all_digits(digits) && dec_value(digits) <= usize::MAX as int
}

/// Read `header` the way Rust reads an unsigned decimal integer: an
/// optional leading `+`, then one or more digits, rejecting values
/// that do not fit a `usize`.
pub fn parse_usize_bytes(header: &[u8]) -> (r: Option<usize>)
    ensures
        r is Some <==> parses_as_usize(header@),
        r matches Some(v) ==> v as int == dec_value(digit_seq(header@)),
{
    let len = header.len();
    let start: usize = if len > 0 && *vstd::slice::slice_index_get(header, 0) == 0x2b {
        1
    } else {
        0
    };
    let ghost digits = digit_seq(header@);
    proof {
        assert(digits =~= header@.skip(start as int));
    }
    if start >= len {
        return None;
    }
    let mut value: u128 = 0;
    let mut over: bool = false;
    let mut i: usize = start;
    proof {
        assert(header@.subrange(start as int, start as int) =~= Seq::<u8>::empty());
    }
    while i < len
        invariant
            start <= i <= len,
            len == header@.len(),
            digits == digit_seq(header@),
            digits == header@.skip(start as int),
            forall|j: int| start <= j < i ==> is_digit(header@[j]),
            !over ==> value as int == dec_value(header@.subrange(start as int, i as int))
                && value <= usize::MAX as u128,
            over ==> dec_value(header@.subrange(start as int, i as int)) > usize::MAX as int,
        decreases len - i,
    {
        let b = *vstd::slice::slice_index_get(header, i);
        if !(0x30 <= b && b <= 0x39) {
            proof {
                assert(digits[i - start] == header@[i as int]);
                assert(!all_digits(digits));
            }
            return None;
        }
        proof {
            let prefix = header@.subrange(start as int, i as int);
            let next = header@.subrange(start as int, i as int + 1);
            assert(next.drop_last() =~= prefix);
            assert(next.last() == header@[i as int]);
        }
        if !over {
            let d: u128 = (b - 0x30) as u128;
            value = value * 10 + d;
            if value > (usize::MAX as u128) {
                over = true;
            }
        }
        i = i + 1;
    }
    proof {
        assert(header@.subrange(start as int, len as int) =~= digits);
    }
    if over {
        None
    } else {
        Some(value as usize)
    }
}

proof fn lemma_lf_from_bounds(bytes: Seq<u8>, start: int)
    requires
        0 <= start,
    ensures
        lf_from(bytes, start) == -1 || lf_from(bytes, start) >= start,
        lf_from(bytes, start) == -1 ==> forall|j: int|
            start <= j < bytes.len() ==> bytes[j] != 0x0a,
        lf_from(bytes, start) >= 0 ==> start <= lf_from(bytes, start) < bytes.len()
            && bytes[lf_from(bytes, start)] == 0x0a && forall|j: int|
            start <= j < lf_from(bytes, start) ==> bytes[j] != 0x0a,
    decreases bytes.len() - start,
{
    if start < bytes.len() && bytes[start] != 0x0a {
        lemma_lf_from_bounds(bytes, start + 1);
    }
}

proof fn lemma_ws_from_bounds(bytes: Seq<u8>, start: int)
    requires
        0 <= start,
    ensures
        ws_from(bytes, start) == -1 || ws_from(bytes, start) >= start,
        ws_from(bytes, start) == -1 ==> forall|j: int|
            start <= j < bytes.len() ==> !is_ascii_ws(bytes[j]),
        ws_from(bytes, start) >= 0 ==> start <= ws_from(bytes, start) < bytes.len()
            && is_ascii_ws(bytes[ws_from(bytes, start)]) && forall|j: int|
            start <= j < ws_from(bytes, start) ==> !is_ascii_ws(bytes[j]),
    decreases bytes.len() - start,
{
    if start < bytes.len() && !is_ascii_ws(bytes[start]) {
        lemma_ws_from_bounds(bytes, start + 1);
    }
}

/// Index of the line-feed byte that closes the header, or -1 if there
/// is none anywhere in the buffer.
pub open spec fn term_pos(bytes: Seq<u8>) -> int {
    lf_from(bytes, 0)
}

/// A usable header terminator exists.  A line feed at index 0 does not
/// count: the scan cannot tell it from "no line feed found", so such a
/// buffer is rejected as having no terminator, which also rules out a
/// header of width zero.
pub open spec fn has_term(bytes: Seq<u8>) -> bool {
    term_pos(bytes) >= 1
}

/// Where the decimal header ends: at the first whitespace byte after
/// index 0.  Meaningful only when `has_term` holds; the terminator is
/// itself whitespace, so this is then an index in `[1, term_pos]`, and
/// any gap between it and the terminator is discarded as padding.
pub open spec fn header_end(bytes: Seq<u8>) -> int {
    ws_from(bytes, 1)
}

/// The bytes of the decimal header.
pub open spec fn header_of(bytes: Seq<u8>) -> Seq<u8> {
    bytes.subrange(0, header_end(bytes))
}

/// Everything after the header terminator: the message followed by the
/// metadata block.
pub open spec fn body_of(bytes: Seq<u8>) -> Seq<u8> {
    bytes.skip(term_pos(bytes) + 1)
}

/// The byte count the header declares.
pub open spec fn header_count(bytes: Seq<u8>) -> int {
    dec_value(digit_seq(header_of(bytes)))
}

/// The header is well-formed: terminated, valid UTF-8, an unsigned
/// decimal integer, and not zero.
pub open spec fn header_ok(bytes: Seq<u8>) -> bool {
    has_term(bytes) && vstd::utf8::valid_utf8(header_of(bytes)) && parses_as_usize(
        header_of(bytes),
    ) && header_count(bytes) > 0
}

/// First whitespace index recorded after scanning `bytes[..k]`: the
/// scan never records index 0, whose sentinel means "none seen yet".
spec fn wp_before(bytes: Seq<u8>, k: int) -> int {
    if ws_from(bytes, 1) >= 0 && ws_from(bytes, 1) < k {
        ws_from(bytes, 1)
    } else {
        0
    }
}

/// Locate the decimal byte-count header and decode it.
///
/// Returns the declared message byte count and the bytes that follow
/// the header terminator.
pub fn length<'a>(content: &'a [u8]) -> (r: Result<(usize, &'a [u8]), ParseError>)
    ensures
        ({
            let s = content@;
            match r {
                Ok((count, rest)) => header_ok(s) && count as int == header_count(s) && count > 0
                    && rest@ == body_of(s),
                Err(e) => match e {
                    ParseError::MissingTerminator => !has_term(s),
                    ParseError::InvalidUnicode(lo, hi) => has_term(s) && !vstd::utf8::valid_utf8(
                        header_of(s),
                    ) && lo == 0 && hi as int == header_end(s),
                    ParseError::InvalidByteCount(text) => has_term(s) && vstd::utf8::valid_utf8(
                        header_of(s),
                    ) && !parses_as_usize(header_of(s)) && text@ == vstd::utf8::decode_utf8(
                        header_of(s),
                    ),
                    ParseError::EmptyByteCount => has_term(s) && vstd::utf8::valid_utf8(
                        header_of(s),
                    ) && parses_as_usize(header_of(s)) && header_count(s) == 0,
                    ParseError::UnexpectedEnding(_) => false,
                    ParseError::InvalidPlistData(_) => false,
                },
            }
        }),
{
    let n = content.len();
    let ghost s = content@;
    let mut terminator_position: usize = 0;
    let mut whitespace_position: usize = 0;
    let mut found: bool = false;
    let mut i: usize = 0;
    while i < n && !found
        invariant
            0 <= i <= n,
            n == s.len(),
            s == content@,
            !found ==> terminator_position == 0 && (forall|j: int|
                0 <= j < i ==> s[j] != 0x0a) && whitespace_position as int == wp_before(
                s,
                i as int,
            ),
            found ==> i < n && terminator_position == i && s[i as int] == 0x0a && (forall|j: int|
                0 <= j < i ==> s[j] != 0x0a) && whitespace_position as int == wp_before(
                s,
                i as int + 1,
            ),
        decreases n - i + (if found { 0int } else { 1int }),
    {
        let byte = *vstd::slice::slice_index_get(content, i);
        proof {
            lemma_ws_from_bounds(s, 1);
        }
        let ws_byte = byte == 0x20 || byte == 0x09 || byte == 0x0a || byte == 0x0c || byte
            == 0x0d;
        if ws_byte && whitespace_position == 0 {
            proof {
                if i >= 1 {
                    assert(is_ascii_ws(s[i as int]));
                    lemma_ws_from_bounds(s, 1);
                    if ws_from(s, 1) == -1 || ws_from(s, 1) > i as int {
                        assert(!is_ascii_ws(s[i as int]));
                    } else if ws_from(s, 1) < i as int {
                        assert(wp_before(s, i as int) == ws_from(s, 1));
                    }
                    assert(ws_from(s, 1) == i as int);
                }
            }
            whitespace_position = i;
        }
        if byte == 0x0a {
            terminator_position = i;
            found = true;
        } else {
            proof {
                if !ws_byte && ws_from(s, 1) == i as int {
                    assert(is_ascii_ws(s[i as int]));
                }
            }
            i = i + 1;
        }
    }
    proof {
        lemma_lf_from_bounds(s, 0);
        lemma_ws_from_bounds(s, 1);
    }
    if terminator_position == 0 {
        return Err(ParseError::MissingTerminator);
    }
    let decimal_end = if whitespace_position > 0 {
        whitespace_position
    } else {
        terminator_position
    };
    assert(decimal_end as int == header_end(s));
    let decimal_slice = vstd::slice::slice_subrange(content, 0, decimal_end);
    if !crate::unicode::check_utf8(decimal_slice) {
        return Err(ParseError::InvalidUnicode(0, decimal_end));
    }
    let decimal_str = crate::unicode::utf8_unchecked(decimal_slice);
    let message_begin = terminator_position + 1;
    let byte_count = match parse_usize_bytes(decimal_slice) {
        Some(count) => count,
        None => {
            return Err(ParseError::InvalidByteCount(decimal_str.to_owned()));
        },
    };
    if byte_count == 0 {
        return Err(ParseError::EmptyByteCount);
    }
    let rest = vstd::slice::slice_subrange(content, message_begin, n);
    proof {
        assert(rest@ =~= body_of(s));
    }
    Ok((byte_count, rest))
}

/// Split an `emlx` container into its message and its plist metadata.
///
/// The message is exactly the declared number of bytes after the
/// header terminator; the metadata is everything after the message and
/// must be non-empty.
pub fn split<'a>(content: &'a [u8]) -> (r: Result<(&'a [u8], &'a [u8]), ParseError>)
    ensures
        ({
            let s = content@;
            match r {
                Ok((message, metadata)) => header_ok(s) && header_count(s) < body_of(s).len()
                    && message@ == body_of(s).take(header_count(s)) && metadata@ == body_of(
                    s,
                ).skip(header_count(s)),
                Err(e) => match e {
                    ParseError::UnexpectedEnding(remaining) => header_ok(s) && remaining as int
                        == body_of(s).len() && body_of(s).len() <= header_count(s),
                    ParseError::MissingTerminator => !has_term(s),
                    ParseError::InvalidUnicode(lo, hi) => has_term(s) && !vstd::utf8::valid_utf8(
                        header_of(s),
                    ) && lo == 0 && hi as int == header_end(s),
                    ParseError::InvalidByteCount(text) => has_term(s) && vstd::utf8::valid_utf8(
                        header_of(s),
                    ) && !parses_as_usize(header_of(s)) && text@ == vstd::utf8::decode_utf8(
                        header_of(s),
                    ),
                    ParseError::EmptyByteCount => has_term(s) && vstd::utf8::valid_utf8(
                        header_of(s),
                    ) && parses_as_usize(header_of(s)) && header_count(s) == 0,
                    ParseError::InvalidPlistData(_) => false,
                },
            }
        }),
{
    let (message_end, rest) = match length(content) {
        Ok(pair) => pair,
        Err(e) => {
            return Err(e);
        },
    };
    if rest.len() <= message_end {
        return Err(ParseError::UnexpectedEnding(rest.len()));
    }
    let message = vstd::slice::slice_subrange(rest, 0, message_end);
    let metadata = vstd::slice::slice_subrange(rest, message_end, rest.len());
    proof {
        assert(message@ =~= body_of(content@).take(header_count(content@)));
        assert(metadata@ =~= body_of(content@).skip(header_count(content@)));
    }
    Ok((message, metadata))
}

/// The canonical decimal digits of `n`, most significant first; empty
/// when `n` is not positive.
pub open spec fn dec_digits(n: int) -> Seq<u8>
    decreases n,
{
    if n <= 0 {
        Seq::empty()
    } else {
        dec_digits(n / 10).push((n % 10 + 0x30) as u8)
    }
}

proof fn lemma_dec_digits(n: int)
    requires
        1 <= n,
    ensures
        dec_digits(n).len() >= 1,
        all_digits(dec_digits(n)),
        dec_value(dec_digits(n)) == n,
        forall|i: int| 0 <= i < dec_digits(n).len() ==> !is_ascii_ws(#[trigger] dec_digits(n)[i])
            && dec_digits(n)[i] != 0x0a && dec_digits(n)[i] != 0x2b,
    decreases n,
{
    vstd::arithmetic::div_mod::lemma_fundamental_div_mod(n, 10);
    let rest = dec_digits(n / 10);
    let digit = (n % 10 + 0x30) as u8;
    assert(dec_digits(n) == rest.push(digit));
    assert(rest.push(digit).drop_last() =~= rest);
    if n >= 10 {
        lemma_dec_digits(n / 10);
    } else {
        assert(dec_digits(n / 10) =~= Seq::<u8>::empty());
    }
}

/// A well-formed container splits back into exactly its parts.
///
/// For a buffer assembled from the canonical decimal digits of
/// `count`, any amount of space padding, the line-feed terminator, a
/// message of exactly `count` bytes and a non-empty metadata block,
/// the header is well-formed and declares `count` independent of the
/// padding, and the body splits back into exactly the message and the
/// metadata.
pub proof fn lemma_split_well_formed(count: int, pad: Seq<u8>, message: Seq<u8>, metadata: Seq<u8>)
    requires
        1 <= count <= usize::MAX as int,
        forall|i: int| 0 <= i < pad.len() ==> pad[i] == 0x20,
        message.len() == count,
        metadata.len() >= 1,
    ensures
        ({
            let s = dec_digits(count) + pad + seq![0x0au8] + message + metadata;
            header_ok(s) && header_count(s) == count && header_count(s) < body_of(s).len()
                && body_of(s).take(header_count(s)) == message && body_of(s).skip(
                header_count(s),
            ) == metadata
        }),
{
    let digits = dec_digits(count);
    let dl = digits.len() as int;
    let pl = pad.len() as int;
    let term = dl + pl;
    let s = digits + pad + seq![0x0au8] + message + metadata;
    lemma_dec_digits(count);
    assert(s.len() == dl + pl + 1 + message.len() + metadata.len());
    assert(forall|j: int| 0 <= j < dl ==> s[j] == digits[j]);
    assert(forall|j: int| dl <= j < term ==> s[j] == pad[j - dl]);
    assert(s[term] == 0x0a);
    assert(forall|j: int| 0 <= j < message.len() ==> s[term + 1 + j] == message[j]);
    assert(forall|j: int|
        0 <= j < metadata.len() ==> s[term + 1 + message.len() + j] == metadata[j]);

    // The header terminator is the line feed at `term`.
    lemma_lf_from_bounds(s, 0);
    assert(forall|j: int| 0 <= j < term ==> s[j] != 0x0a);
    assert(lf_from(s, 0) == term) by {
        if lf_from(s, 0) == -1 || lf_from(s, 0) > term {
            assert(s[term] != 0x0a);
        }
    }
    assert(has_term(s));

    // The first whitespace after index 0 closes the header at `dl`.
    lemma_ws_from_bounds(s, 1);
    assert(forall|j: int| 1 <= j < dl ==> !is_ascii_ws(s[j]));
    let close = if pl > 0 {
        dl
    } else {
        term
    };
    assert(is_ascii_ws(s[close]) && close == dl);
    assert(ws_from(s, 1) == dl) by {
        if ws_from(s, 1) == -1 || ws_from(s, 1) > close {
            assert(!is_ascii_ws(s[close]));
        }
    }
    assert(header_of(s) =~= digits);

    // The header is ASCII, hence valid UTF-8, and all digits.
    assert(vstd::utf8::valid_utf8(header_of(s))) by {
        assert(vstd::utf8::partial_valid_utf8(digits, 0)) by {
            assert(digits.subrange(0, 0) =~= Seq::<u8>::empty());
        }
        assert(forall|i: int|
            0 <= i < dl ==> vstd::utf8::is_leading_byte_width_1(#[trigger] digits[i]));
        vstd::utf8::partial_valid_utf8_extend_ascii_block(digits, 0, dl);
        assert(digits.subrange(0, dl) =~= digits);
    }
    assert(digit_seq(digits) == digits);
    assert(parses_as_usize(header_of(s)));
    assert(header_count(s) == count);

    // The body is the message followed by the metadata.
    assert(body_of(s) =~= message + metadata);
    assert(body_of(s).take(count) =~= message);
    assert(body_of(s).skip(count) =~= metadata);
}

} // verus!

