//! Decoding of file input: `data:` URLs (base64 or percent-encoded payloads)
//! and raw base64.

use base64::Engine;
use vstd::prelude::*;
use vstd::string::StringSliceAdditionalSpecFns;
use vstd::utf8::decode_utf8;
use crate::text::{bytes_start_with, push_str, split_after_ascii, split_at_ascii};

verus! {

/// Why a file input was refused.
#[derive(Debug, Clone)]
pub enum InputError {
    /// A byte after `%` that is not a hexadecimal digit.
    InvalidHexDigit(u8),
    /// A `%` with fewer than two bytes after it.
    TruncatedPercentEncoding,
    /// A data URL that does not begin with `data:`.
    MissingDataPrefix,
    /// A data URL without the `,` that ends its media type.
    MissingComma,
    /// The base64 payload of a data URL did not decode; holds the decoder's message.
    Base64Decode(String),
    /// Raw (non-data-URL) input that is not valid base64; holds the decoder's message.
    InvalidRawBase64(String),
}

/// The mathematical content of an [`InputError`].
pub enum InputErrorView {
    InvalidHexDigit(u8),
    TruncatedPercentEncoding,
    MissingDataPrefix,
    MissingComma,
    Base64Decode(Seq<char>),
    InvalidRawBase64(Seq<char>),
}

impl View for InputError {
    type V = InputErrorView;

    open spec fn view(&self) -> InputErrorView {
        match self {
            InputError::InvalidHexDigit(b) => InputErrorView::InvalidHexDigit(*b),
            InputError::TruncatedPercentEncoding => InputErrorView::TruncatedPercentEncoding,
            InputError::MissingDataPrefix => InputErrorView::MissingDataPrefix,
            InputError::MissingComma => InputErrorView::MissingComma,
            InputError::Base64Decode(m) => InputErrorView::Base64Decode(m@),
            InputError::InvalidRawBase64(m) => InputErrorView::InvalidRawBase64(m@),
        }
    }
}

/// The human-readable message of an input error.
pub open spec fn error_message(e: InputErrorView) -> Seq<char> {
    match e {
        InputErrorView::InvalidHexDigit(b) => "Invalid hex digit: "@.push(b as char),
        InputErrorView::TruncatedPercentEncoding => "Truncated percent encoding"@,
        InputErrorView::MissingDataPrefix => "Data URL must start with 'data:'"@,
        InputErrorView::MissingComma => "Invalid data URL: missing comma separator"@,
        InputErrorView::Base64Decode(m) => "Base64 decode error: "@ + m,
        InputErrorView::InvalidRawBase64(m) => "Invalid base64 input: "@ + m
            + ". Provide a data URL (data:<mime>;base64,<data>) or raw base64."@,
    }
}

impl InputError {
    /// The message reported to the client for this error.
    pub fn message(&self) -> (r: String)
        ensures
            r@ == error_message(self@),
    {
        match self {
            InputError::InvalidHexDigit(b) => {
                let mut s = "Invalid hex digit: ".to_owned();
                s.push(*b as char);
                s
            },
            InputError::TruncatedPercentEncoding => "Truncated percent encoding".to_owned(),
            InputError::MissingDataPrefix => "Data URL must start with 'data:'".to_owned(),
            InputError::MissingComma => "Invalid data URL: missing comma separator".to_owned(),
            InputError::Base64Decode(m) => {
                let mut s = "Base64 decode error: ".to_owned();
                push_str(&mut s, m.as_str());
                s
            },
            InputError::InvalidRawBase64(m) => {
                let mut s = "Invalid base64 input: ".to_owned();
                push_str(&mut s, m.as_str());
                push_str(
                    &mut s,
                    ". Provide a data URL (data:<mime>;base64,<data>) or raw base64.",
                );
                s
            },
        }
    }
}

/// The value of a hexadecimal digit (`0-9`, `a-f`, `A-F`), if the byte is one.
pub open spec fn spec_hex_digit(b: u8) -> Option<u8> {
    if 48 <= b <= 57 {
        Some((b - 48) as u8)
    } else if 97 <= b <= 102 {
        Some((b - 97 + 10) as u8)
    } else if 65 <= b <= 70 {
        Some((b - 65 + 10) as u8)
    } else {
        None
    }
}

/// Decodes one hexadecimal digit.
pub fn hex_digit(b: u8) -> (r: Result<u8, InputError>)
    ensures
        match spec_hex_digit(b) {
            Some(v) => r matches Ok(x) && x == v,
            None => r matches Err(e) && e@ == InputErrorView::InvalidHexDigit(b),
        },
{
    if 48 <= b && b <= 57 {
        Ok(b - 48)
    } else if 97 <= b && b <= 102 {
        Ok(b - 97 + 10)
    } else if 65 <= b && b <= 70 {
        Ok(b - 65 + 10)
    } else {
        Err(InputError::InvalidHexDigit(b))
    }
}

/// The byte written by two hexadecimal digits, high digit first; an invalid
/// high digit is reported before an invalid low digit.
pub open spec fn spec_hex_to_byte(hi: u8, lo: u8) -> Result<u8, InputErrorView> {
    match (spec_hex_digit(hi), spec_hex_digit(lo)) {
        (None, _) => Err(InputErrorView::InvalidHexDigit(hi)),
        (Some(_), None) => Err(InputErrorView::InvalidHexDigit(lo)),
        (Some(h), Some(l)) => Ok((h * 16 + l) as u8),
    }
}

/// Decodes a pair of hexadecimal digits into a byte.
pub fn hex_to_byte(hi: u8, lo: u8) -> (r: Result<u8, InputError>)
    ensures
        match spec_hex_to_byte(hi, lo) {
            Ok(v) => r matches Ok(x) && x == v,
            Err(ev) => r matches Err(e) && e@ == ev,
        },
{
    let h = match hex_digit(hi) {
        Ok(h) => h,
        Err(e) => return Err(e),
    };
    let l = match hex_digit(lo) {
        Ok(l) => l,
        Err(e) => return Err(e),
    };
    Ok(h * 16 + l)
}

/// Percent-decoding of a byte string: `%XY` stands for the byte with hex
/// digits `X` and `Y`, every other byte stands for itself.
pub open spec fn spec_percent_decode(b: Seq<u8>) -> Result<Seq<u8>, InputErrorView>
    decreases b.len(),
{
    if b.len() == 0 {
        Ok(Seq::<u8>::empty())
    } else if b[0] == 37u8 {
        if b.len() < 3 {
            Err(InputErrorView::TruncatedPercentEncoding)
        } else {
            match spec_hex_to_byte(b[1], b[2]) {
                Err(e) => Err(e),
                Ok(v) => match spec_percent_decode(b.skip(3)) {
                    Ok(rest) => Ok(seq![v] + rest),
                    Err(e) => Err(e),
                },
            }
        }
    } else {
        match spec_percent_decode(b.skip(1)) {
            Ok(rest) => Ok(seq![b[0]] + rest),
            Err(e) => Err(e),
        }
    }
}

/// Whether an outcome of a byte decoding matches its specification.
pub open spec fn bytes_outcome(r: Result<Vec<u8>, InputError>, spec: Result<Seq<u8>, InputErrorView>) -> bool {
    match spec {
        Ok(v) => r matches Ok(x) && x@ == v,
        Err(ev) => r matches Err(e) && e@ == ev,
    }
}

/// Percent-decodes the UTF-8 bytes of `s`.
pub fn percent_decode(s: &str) -> (r: Result<Vec<u8>, InputError>)
    ensures
        bytes_outcome(r, spec_percent_decode(s.spec_bytes())),
{
    let b = s.as_bytes();
    let mut result: Vec<u8> = Vec::new();
    let mut i: usize = 0;
    assert(b@.skip(0) =~= b@);
    while i < b.len()
        invariant
            b@ == s.spec_bytes(),
            0 <= i <= b@.len(),
            spec_percent_decode(b@.skip(i as int)) matches Ok(rest) ==> spec_percent_decode(b@)
                == Ok::<Seq<u8>, InputErrorView>(result@ + rest),
            spec_percent_decode(b@.skip(i as int)) matches Err(e) ==> spec_percent_decode(b@)
                == Err::<Seq<u8>, InputErrorView>(e),
        decreases b@.len() - i,
    {
        let ghost tail = b@.skip(i as int);
        let c = b[i];
        if c == 37u8 {
            if b.len() - i < 3 {
                return Err(InputError::TruncatedPercentEncoding);
            }
            let byte = match hex_to_byte(b[i + 1], b[i + 2]) {
                Ok(v) => v,
                Err(e) => return Err(e),
            };
            proof {
                assert(tail.skip(3) =~= b@.skip(i + 3));
                let ghost old_result = result@;
                if let Ok(rest) = spec_percent_decode(b@.skip(i + 3)) {
                    assert(old_result + (seq![byte] + rest) =~= old_result.push(byte) + rest);
                }
            }
            result.push(byte);
            i = i + 3;
        } else {
            proof {
                assert(tail.skip(1) =~= b@.skip(i + 1));
                let ghost old_result = result@;
                if let Ok(rest) = spec_percent_decode(b@.skip(i + 1)) {
                    assert(old_result + (seq![c] + rest) =~= old_result.push(c) + rest);
                }
            }
            result.push(c);
            i = i + 1;
        }
    }
    assert(result@ + Seq::<u8>::empty() =~= result@);
    Ok(result)
}


/// What the base64 `STANDARD` engine (RFC 4648 alphabet, canonical `=`
/// padding required) decodes the bytes `input` to, or the message of the
/// decode error it reports.
pub uninterp spec fn base64_standard_decode(input: Seq<u8>) -> Result<Seq<u8>, Seq<char>>;

/// Calls `base64::engine::general_purpose::STANDARD.decode`. Its result, and
/// the `Display` text of its error, are named by `base64_standard_decode` of
/// the input bytes; the decoding itself is not restated here.
#[verifier::external_body]
fn base64_decode(input: &[u8]) -> (r: Result<Vec<u8>, String>)
    ensures
        match base64_standard_decode(input@) {
            Ok(v) => r matches Ok(x) && x@ == v,
            Err(m) => r matches Err(e) && e@ == m,
        },
{
    match base64::engine::general_purpose::STANDARD.decode(input) {
        Ok(v) => Ok(v),
        Err(e) => Err(e.to_string()),
    }
}

/// The bytes of `data:`.
pub open spec fn data_prefix() -> Seq<u8> {
    seq![100u8, 97u8, 116u8, 97u8, 58u8]
}

/// The bytes of `;base64`.
pub open spec fn base64_marker() -> Seq<u8> {
    seq![59u8, 98u8, 97u8, 115u8, 101u8, 54u8, 52u8]
}

/// Whether `b` ends with `suffix`.
pub open spec fn bytes_end_with(b: Seq<u8>, suffix: Seq<u8>) -> bool {
    suffix.len() <= b.len() && b.subrange(b.len() - suffix.len(), b.len() as int) == suffix
}

/// `b` with every trailing `;base64` removed, as `str::trim_end_matches` does.
pub open spec fn trim_base64_markers(b: Seq<u8>) -> Seq<u8>
    decreases b.len(),
{
    if b.len() >= 7 && bytes_end_with(b, base64_marker()) {
        trim_base64_markers(b.subrange(0, b.len() - 7))
    } else {
        b
    }
}

/// The index of the first occurrence of byte `c` in `b`.
pub open spec fn first_index_of(b: Seq<u8>, c: u8) -> Option<nat>
    decreases b.len(),
{
    if b.len() == 0 {
        None
    } else if b[0] == c {
        Some(0)
    } else {
        match first_index_of(b.skip(1), c) {
            Some(k) => Some(k + 1),
            None => None,
        }
    }
}

/// The media type used when a data URL names none.
pub open spec fn octet_stream() -> Seq<char> {
    "application/octet-stream"@
}

/// The media type named by the part of a data URL between `data:` and the
/// comma: without any trailing `;base64`, and `application/octet-stream` when
/// nothing is left.
pub open spec fn spec_data_url_mime(mime_part: Seq<u8>) -> Seq<char> {
    let mime_bytes = if bytes_end_with(mime_part, base64_marker()) {
        trim_base64_markers(mime_part)
    } else {
        mime_part
    };
    if mime_bytes.len() == 0 {
        octet_stream()
    } else {
        decode_utf8(mime_bytes)
    }
}

/// What `parse_data_url` yields for a data URL with UTF-8 bytes `b`: the
/// decoded payload and the media type.
pub open spec fn spec_parse_data_url(b: Seq<u8>) -> Result<(Seq<u8>, Seq<char>), InputErrorView> {
    if !bytes_start_with(b, data_prefix()) {
        Err(InputErrorView::MissingDataPrefix)
    } else {
        let rest = b.skip(5);
        match first_index_of(rest, 44u8) {
            None => Err(InputErrorView::MissingComma),
            Some(k) => {
                let mime_part = rest.take(k as int);
                let encoded = rest.skip(k as int + 1);
                let mime = spec_data_url_mime(mime_part);
                if bytes_end_with(mime_part, base64_marker()) {
                    match base64_standard_decode(encoded) {
                        Ok(d) => Ok((d, mime)),
                        Err(m) => Err(InputErrorView::Base64Decode(m)),
                    }
                } else {
                    match spec_percent_decode(encoded) {
                        Ok(d) => Ok((d, mime)),
                        Err(e) => Err(e),
                    }
                }
            },
        }
    }
}

/// Whether an outcome of a file-input decoding matches its specification.
pub open spec fn file_outcome(
    r: Result<(Vec<u8>, String), InputError>,
    spec: Result<(Seq<u8>, Seq<char>), InputErrorView>,
) -> bool {
    match spec {
        Ok((d, m)) => r matches Ok(x) && x.0@ == d && x.1@ == m,
        Err(ev) => r matches Err(e) && e@ == ev,
    }
}

/// The index of the first `,` in `b`, if any.
fn find_comma(b: &[u8]) -> (r: Option<usize>)
    ensures
        first_index_of(b@, 44u8) == match r {
            Some(k) => Some(k as nat),
            None => None::<nat>,
        },
        r matches Some(k) ==> k < b@.len() && b@[k as int] == 44u8,
{
    let mut i: usize = 0;
    assert(b@.skip(0) =~= b@);
    while i < b.len()
        invariant
            0 <= i <= b@.len(),
            first_index_of(b@, 44u8) == match first_index_of(b@.skip(i as int), 44u8) {
                Some(k) => Some((k + i) as nat),
                None => None::<nat>,
            },
        decreases b@.len() - i,
    {
        if b[i] == 44u8 {
            return Some(i);
        }
        assert(b@.skip(i as int).skip(1) =~= b@.skip(i + 1));
        i = i + 1;
    }
    None
}

/// The length of `b` once every trailing `;base64` is removed.
fn trimmed_len(b: &[u8]) -> (r: usize)
    ensures
        r <= b@.len(),
        trim_base64_markers(b@) == b@.subrange(0, r as int),
        r < b@.len() ==> b@[r as int] == 59u8,
{
    let mut n: usize = b.len();
    assert(b@.subrange(0, n as int) =~= b@);
    loop
        invariant
            n <= b@.len(),
            trim_base64_markers(b@) == trim_base64_markers(b@.subrange(0, n as int)),
            n < b@.len() ==> b@[n as int] == 59u8,
        decreases n,
    {
        let ghost cur = b@.subrange(0, n as int);
        if ends_with_marker(b, n) {
            assert(cur.subrange(0, cur.len() - 7) =~= b@.subrange(0, n - 7));
            n = n - 7;
        } else {
            return n;
        }
    }
}

/// Whether the first `n` bytes of `b` end with `;base64`.
fn ends_with_marker(b: &[u8], n: usize) -> (r: bool)
    requires
        n <= b@.len(),
    ensures
        r == bytes_end_with(b@.subrange(0, n as int), base64_marker()),
        r ==> n >= 7 && b@[n - 7] == 59u8,
{
    let ghost cur = b@.subrange(0, n as int);
    let r = n >= 7 && b[n - 7] == 59u8 && b[n - 6] == 98u8 && b[n - 5] == 97u8 && b[n - 4]
        == 115u8 && b[n - 3] == 101u8 && b[n - 2] == 54u8 && b[n - 1] == 52u8;
    proof {
        if n >= 7 {
            let m = cur.subrange(n - 7, n as int);
            assert(m[0] == b@[n - 7] && m[1] == b@[n - 6] && m[2] == b@[n - 5] && m[3] == b@[n
                - 4] && m[4] == b@[n - 3] && m[5] == b@[n - 2] && m[6] == b@[n - 1]);
            if r {
                assert(m =~= base64_marker());
            }
        }
    }
    r
}

/// The media type named by `mime_part`, and whether it is marked `;base64`.
fn data_url_mime(mime_part: &str) -> (r: (bool, String))
    ensures
        r.0 == bytes_end_with(mime_part.spec_bytes(), base64_marker()),
        r.1@ == spec_data_url_mime(mime_part.spec_bytes()),
        r.1@.len() > 0,
{
    let mb = mime_part.as_bytes();
    let is_base64 = ends_with_marker(mb, mb.len());
    assert(mb@.subrange(0, mb@.len() as int) =~= mb@);
    let mime_len: usize = if is_base64 {
        trimmed_len(mb)
    } else {
        mb.len()
    };
    let (mime_type, _) = split_at_ascii(mime_part, mime_len);
    proof {
        reveal_strlit("application/octet-stream");
        if mime_len != 0 && mime_type@.len() == 0 {
            assert(mime_type@ =~= Seq::<char>::empty());
            assert(mime_type.spec_bytes() =~= Seq::<u8>::empty());
        }
    }
    let mime: String = if mime_len == 0 {
        "application/octet-stream".to_owned()
    } else {
        mime_type.to_owned()
    };
    (is_base64, mime)
}

/// Splits a data URL into the part between `data:` and the first comma, and
/// the part after that comma.
fn split_data_url(data_url: &str) -> (r: Result<(&str, &str), InputError>)
    ensures
        match r {
            Ok((m, e)) => {
                &&& bytes_start_with(data_url.spec_bytes(), data_prefix())
                &&& first_index_of(data_url.spec_bytes().skip(5), 44u8) matches Some(k)
                &&& m.spec_bytes() == data_url.spec_bytes().skip(5).take(k as int)
                &&& e.spec_bytes() == data_url.spec_bytes().skip(5).skip(k as int + 1)
            },
            Err(e) => match spec_parse_data_url(data_url.spec_bytes()) {
                Err(ev) => e@ == ev && (ev is MissingDataPrefix || ev is MissingComma),
                Ok(_) => false,
            },
        },
{
    let bytes = data_url.as_bytes();
    if bytes.len() < 5 || !(bytes[0] == 100u8 && bytes[1] == 97u8 && bytes[2] == 116u8
        && bytes[3] == 97u8 && bytes[4] == 58u8) {
        proof {
            if bytes_start_with(bytes@, data_prefix()) {
                let p = bytes@.subrange(0, 5);
                assert(p[0] == bytes@[0] && p[1] == bytes@[1] && p[2] == bytes@[2] && p[3]
                    == bytes@[3] && p[4] == bytes@[4]);
            }
        }
        return Err(InputError::MissingDataPrefix);
    }
    assert(bytes@.subrange(0, 5) =~= data_prefix());
    let (_, after_prefix) = split_after_ascii(data_url, 5);
    let rest = after_prefix.as_bytes();
    assert(rest@ =~= bytes@.skip(5));
    let comma = match find_comma(rest) {
        Some(k) => k,
        None => return Err(InputError::MissingComma),
    };
    let (mime_part, with_comma) = split_at_ascii(after_prefix, comma);
    let (_, encoded) = split_after_ascii(with_comma, 1);
    assert(mime_part.spec_bytes() =~= rest@.take(comma as int));
    assert(encoded.spec_bytes() =~= rest@.skip(comma + 1));
    assert(bytes_start_with(data_url.spec_bytes(), data_prefix()));
    assert(first_index_of(data_url.spec_bytes().skip(5), 44u8) == Some(comma as nat));
    Ok((mime_part, encoded))
}

/// Decodes a `data:[<mime>][;base64],<data>` URL into its payload and media
/// type (`application/octet-stream` when none is named).
pub fn parse_data_url(data_url: &str) -> (r: Result<(Vec<u8>, String), InputError>)
    ensures
        file_outcome(r, spec_parse_data_url(data_url.spec_bytes())),
        r matches Ok(x) ==> x.1@.len() > 0,
{
    let (mime_part, encoded) = match split_data_url(data_url) {
        Ok(parts) => parts,
        Err(e) => return Err(e),
    };
    let (is_base64, mime) = data_url_mime(mime_part);
    if is_base64 {
        match base64_decode(encoded.as_bytes()) {
            Ok(d) => Ok((d, mime)),
            Err(m) => Err(InputError::Base64Decode(m)),
        }
    } else {
        match percent_decode(encoded) {
            Ok(d) => Ok((d, mime)),
            Err(e) => Err(e),
        }
    }
}

/// Trimming never lengthens a byte string.
pub proof fn lemma_trim_shortens(b: Seq<u8>)
    ensures
        trim_base64_markers(b).len() <= b.len(),
    decreases b.len(),
{
    if b.len() >= 7 && bytes_end_with(b, base64_marker()) {
        lemma_trim_shortens(b.subrange(0, b.len() - 7));
    }
}

/// What `parse_file_input` yields for input with UTF-8 bytes `b`.
pub open spec fn spec_parse_file_input(b: Seq<u8>) -> Result<(Seq<u8>, Seq<char>), InputErrorView> {
    if bytes_start_with(b, data_prefix()) {
        spec_parse_data_url(b)
    } else {
        match base64_standard_decode(b) {
            Ok(d) => Ok((d, octet_stream())),
            Err(m) => Err(InputErrorView::InvalidRawBase64(m)),
        }
    }
}

/// Decodes file input given either as a data URL or as raw base64 (whose
/// media type is then `application/octet-stream`).
pub fn parse_file_input(s: &str) -> (r: Result<(Vec<u8>, String), InputError>)
    ensures
        file_outcome(r, spec_parse_file_input(s.spec_bytes())),
        r matches Ok(x) ==> x.1@.len() > 0,
{
    let bytes = s.as_bytes();
    let is_data_url = bytes.len() >= 5 && bytes[0] == 100u8 && bytes[1] == 97u8 && bytes[2]
        == 116u8 && bytes[3] == 97u8 && bytes[4] == 58u8;
    proof {
        if bytes.len() >= 5 {
            let p = bytes@.subrange(0, 5);
            assert(p[0] == bytes@[0] && p[1] == bytes@[1] && p[2] == bytes@[2] && p[3]
                == bytes@[3] && p[4] == bytes@[4]);
            if is_data_url {
                assert(p =~= data_prefix());
            }
        }
    }
    proof {
        reveal_strlit("application/octet-stream");
    }
    if is_data_url {
        parse_data_url(s)
    } else {
        match base64_decode(bytes) {
            Ok(d) => Ok((d, "application/octet-stream".to_owned())),
            Err(m) => Err(InputError::InvalidRawBase64(m)),
        }
    }
}


/// Hexadecimal digits are read the same in upper and lower case.
pub proof fn lemma_hex_digit_case_insensitive(lower: u8)
    requires
        97 <= lower <= 102,
    ensures
        spec_hex_digit(lower) == spec_hex_digit((lower - 32) as u8),
        spec_hex_digit(lower) is Some,
{
}

/// Exactly the bytes `0-9`, `a-f` and `A-F` are hexadecimal digits, and each
/// has a value below 16.
pub proof fn lemma_hex_digit_domain(b: u8)
    ensures
        spec_hex_digit(b) is Some <==> (48 <= b <= 57 || 97 <= b <= 102 || 65 <= b <= 70),
        spec_hex_digit(b) matches Some(v) ==> v < 16,
{
}

/// A string without `%` percent-decodes to its own bytes.
pub proof fn lemma_percent_decode_plain(b: Seq<u8>)
    requires
        forall|i: int| 0 <= i < b.len() ==> b[i] != 37u8,
    ensures
        spec_percent_decode(b) == Ok::<Seq<u8>, InputErrorView>(b),
    decreases b.len(),
{
    if b.len() > 0 {
        lemma_percent_decode_plain(b.skip(1));
        assert(seq![b[0]] + b.skip(1) =~= b);
    } else {
        assert(b =~= Seq::<u8>::empty());
    }
}

/// The upper-case hexadecimal digit for a value below 16.
pub open spec fn hex_char(n: u8) -> u8 {
    if n < 10 {
        (48 + n) as u8
    } else {
        (55 + n) as u8
    }
}

/// Every byte written as `%XY`.
pub open spec fn percent_encode_all(b: Seq<u8>) -> Seq<u8>
    decreases b.len(),
{
    if b.len() == 0 {
        Seq::<u8>::empty()
    } else {
        seq![37u8, hex_char(b[0] / 16), hex_char(b[0] % 16)] + percent_encode_all(b.skip(1))
    }
}

/// Percent-decoding undoes percent-encoding: whatever the bytes, writing
/// each as `%XY` and decoding gives them back.
pub proof fn lemma_percent_decode_of_encoding(b: Seq<u8>)
    ensures
        spec_percent_decode(percent_encode_all(b)) == Ok::<Seq<u8>, InputErrorView>(b),
    decreases b.len(),
{
    if b.len() > 0 {
        let e = percent_encode_all(b);
        let hi = b[0] / 16;
        let lo = b[0] % 16;
        assert(e[0] == 37u8 && e[1] == hex_char(hi) && e[2] == hex_char(lo));
        assert(spec_hex_digit(hex_char(hi)) == Some(hi));
        assert(spec_hex_digit(hex_char(lo)) == Some(lo));
        assert(spec_hex_to_byte(e[1], e[2]) == Ok::<u8, InputErrorView>(b[0]));
        assert(e.skip(3) =~= percent_encode_all(b.skip(1)));
        lemma_percent_decode_of_encoding(b.skip(1));
        assert(seq![b[0]] + b.skip(1) =~= b);
    } else {
        assert(b =~= Seq::<u8>::empty());
    }
}

/// Input that starts with `data:` is read as a data URL.
pub proof fn lemma_file_input_data_url(b: Seq<u8>)
    requires
        bytes_start_with(b, data_prefix()),
    ensures
        spec_parse_file_input(b) == spec_parse_data_url(b),
{
}

/// Any other input is raw base64, of media type `application/octet-stream`.
pub proof fn lemma_file_input_raw_base64(b: Seq<u8>)
    requires
        !bytes_start_with(b, data_prefix()),
    ensures
        spec_parse_file_input(b) matches Ok((_, m)) ==> m == octet_stream(),
        spec_parse_file_input(b) is Ok <==> base64_standard_decode(b) is Ok,
{
}


/// The first occurrence of `c` in `a + [c] + x`, where `a` holds no `c`, is
/// right after `a`.
pub proof fn lemma_first_index_after(a: Seq<u8>, c: u8, x: Seq<u8>)
    requires
        forall|i: int| 0 <= i < a.len() ==> a[i] != c,
    ensures
        first_index_of(a + seq![c] + x, c) == Some(a.len()),
    decreases a.len(),
{
    let w = a + seq![c] + x;
    if a.len() > 0 {
        assert(w.skip(1) =~= a.skip(1) + seq![c] + x);
        lemma_first_index_after(a.skip(1), c, x);
    }
}

/// A data URL written as `data:`, a media type, a comma and the
/// percent-encoding of any payload reads back as that payload and media
/// type, when the media type is non-empty, holds no comma and does not end
/// with `;base64`.
pub proof fn lemma_data_url_round_trip(mime: Seq<u8>, payload: Seq<u8>)
    requires
        mime.len() > 0,
        forall|i: int| 0 <= i < mime.len() ==> mime[i] != 44u8,
        !bytes_end_with(mime, base64_marker()),
    ensures
        spec_parse_data_url(data_prefix() + mime + seq![44u8] + percent_encode_all(payload))
            == Ok::<(Seq<u8>, Seq<char>), InputErrorView>((payload, decode_utf8(mime))),
{
    let enc = percent_encode_all(payload);
    let url = data_prefix() + mime + seq![44u8] + enc;
    assert(url.subrange(0, 5) =~= data_prefix());
    let rest = url.skip(5);
    assert(rest =~= mime + seq![44u8] + enc);
    lemma_first_index_after(mime, 44u8, enc);
    assert(rest.take(mime.len() as int) =~= mime);
    assert(rest.skip(mime.len() as int + 1) =~= enc);
    lemma_percent_decode_of_encoding(payload);
}

} // verus!
