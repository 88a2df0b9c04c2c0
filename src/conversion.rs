use vstd::prelude::*;
use vstd::string::StringExecFns;
use vstd::utf8::{decode_utf8, encode_utf8, valid_utf8};
use crate::casing::{lower_of, same_text, to_lower, to_upper, upper_of};
use crate::detection::FileEncoding;

verus! {

/// Declares std::io::Error, carried opaquely in the I/O error variant.
#[verifier::external_type_specification]
#[verifier::external_body]
pub struct ExIoError(std::io::Error);

/// Why a conversion failed.
#[derive(Debug)]
pub enum ConversionError {
    IoError(std::io::Error),
    EncodingError(String),
    UnsupportedEncoding(String),
}

/// The line-ending convention that a conversion writes.
#[derive(Debug, Clone, Copy, PartialEq, Eq, Structural)]
pub enum LineEnding {
    Unix,
    Windows,
    Keep,
}

/// The line-ending policy named by an already lowercased word.
pub open spec fn line_ending_named(lower: Seq<char>) -> Option<LineEnding> {
    if lower == "unix"@ || lower == "lf"@ {
        Some(LineEnding::Unix)
    } else if lower == "windows"@ || lower == "crlf"@ {
        Some(LineEnding::Windows)
    } else if lower == "keep"@ {
        Some(LineEnding::Keep)
    } else {
        None
    }
}

/// Looks up the line-ending policy for a lowercased word.
pub fn line_ending_for(lower: &str) -> (r: Option<LineEnding>)
    ensures
        r == line_ending_named(lower@),
{
    if same_text(lower, "unix") || same_text(lower, "lf") {
        Some(LineEnding::Unix)
    } else if same_text(lower, "windows") || same_text(lower, "crlf") {
        Some(LineEnding::Windows)
    } else if same_text(lower, "keep") {
        Some(LineEnding::Keep)
    } else {
        None
    }
}

impl LineEnding {
    /// Reads a policy name, ignoring case.
    pub fn from_str(s: &str) -> (r: Option<LineEnding>)
        ensures
            r == line_ending_named(lower_of(s@)),
    {
        let lower = to_lower(s);
        line_ending_for(lower.as_str())
    }
}

/// A concrete codec that names of supported encodings resolve to.
#[derive(Debug, Clone, Copy, PartialEq, Eq, Structural)]
pub enum Codec {
    Utf8,
    Utf16Le,
    Utf16Be,
    Windows1252,
}

/// The codec for an uppercased encoding name: ASCII shares UTF-8's codec and
/// ISO-8859-1 shares the Windows single-byte codec.
pub open spec fn codec_for(upper: Seq<char>) -> Option<Codec> {
    if upper == "UTF-8"@ || upper == "UTF-8-BOM"@ || upper == "ASCII"@ {
        Some(Codec::Utf8)
    } else if upper == "UTF-16LE"@ {
        Some(Codec::Utf16Le)
    } else if upper == "UTF-16BE"@ {
        Some(Codec::Utf16Be)
    } else if upper == "WINDOWS-1252"@ || upper == "ISO-8859-1"@ {
        Some(Codec::Windows1252)
    } else {
        None
    }
}

/// The marker bytes written for an uppercased target name.
pub open spec fn marker_bytes(upper: Seq<char>) -> Seq<u8> {
    if upper == "UTF-8-BOM"@ {
        seq![0xEFu8, 0xBBu8, 0xBFu8]
    } else if upper == "UTF-16LE"@ {
        seq![0xFFu8, 0xFEu8]
    } else if upper == "UTF-16BE"@ {
        seq![0xFEu8, 0xFFu8]
    } else {
        Seq::empty()
    }
}

/// The bytes left once a leading UTF-8 marker, if any, is dropped.
pub open spec fn without_utf8_marker(b: Seq<u8>) -> Seq<u8> {
    if b.len() >= 3 && b[0] == 0xEFu8 && b[1] == 0xBBu8 && b[2] == 0xBFu8 {
        b.subrange(3, b.len() as int)
    } else {
        b
    }
}

/// One 16-bit code unit as two bytes, low byte first when `little`.
pub open spec fn unit_bytes(u: int, little: bool) -> Seq<u8> {
    if little {
        seq![(u % 256) as u8, (u / 256) as u8]
    } else {
        seq![(u / 256) as u8, (u % 256) as u8]
    }
}

/// The UTF-16 encoding of one character: one code unit below U+10000,
/// otherwise a high and a low surrogate.
pub open spec fn char_utf16(c: char, little: bool) -> Seq<u8> {
    let v = c as u32 as int;
    if v < 0x10000 {
        unit_bytes(v, little)
    } else {
        unit_bytes(0xD800 + (v - 0x10000) / 0x400, little) + unit_bytes(
            0xDC00 + (v - 0x10000) % 0x400,
            little,
        )
    }
}

/// The UTF-16 encoding of a text, in the given byte order, without marker.
pub open spec fn utf16_bytes(s: Seq<char>, little: bool) -> Seq<u8>
    decreases s.len(),
{
    if s.len() == 0 {
        Seq::empty()
    } else {
        utf16_bytes(s.drop_last(), little) + char_utf16(s.last(), little)
    }
}

/// Unix normalization: CRLF pairs, then lone CRs, become LF.
pub open spec fn unix_of(s: Seq<char>) -> Seq<char>
    decreases s.len(),
{
    if s.len() == 0 {
        s
    } else if s[0] == '\r' && s.len() >= 2 && s[1] == '\n' {
        seq!['\n'] + unix_of(s.subrange(2, s.len() as int))
    } else if s[0] == '\r' {
        seq!['\n'] + unix_of(s.subrange(1, s.len() as int))
    } else {
        seq![s[0]] + unix_of(s.subrange(1, s.len() as int))
    }
}

/// Every LF expanded to CRLF.
pub open spec fn crlf_of(s: Seq<char>) -> Seq<char>
    decreases s.len(),
{
    if s.len() == 0 {
        s
    } else if s[0] == '\n' {
        seq!['\r', '\n'] + crlf_of(s.subrange(1, s.len() as int))
    } else {
        seq![s[0]] + crlf_of(s.subrange(1, s.len() as int))
    }
}

/// Windows normalization: first to Unix, then every LF to CRLF.
pub open spec fn windows_of(s: Seq<char>) -> Seq<char> {
    crlf_of(unix_of(s))
}

pub open spec fn apply_line_ending(s: Seq<char>, le: LineEnding) -> Seq<char> {
    match le {
        LineEnding::Keep => s,
        LineEnding::Unix => unix_of(s),
        LineEnding::Windows => windows_of(s),
    }
}

/// The text and error flag that decoding `b` with the codec gives, with the
/// decoder's own marker handling.
pub uninterp spec fn decoded(codec: Codec, b: Seq<u8>) -> (Seq<char>, bool);

/// The bytes and error flag that encoding `s` with the codec gives.
pub uninterp spec fn encoded(codec: Codec, s: Seq<char>) -> (Seq<u8>, bool);

/// Relies on encoding_rs::Encoding::decode_with_bom_removal: only this
/// codec's own marker is dropped; for UTF-8 the rest decodes without error
/// exactly when it is well formed, and then to its characters.
#[verifier::external_body]
fn decode_with(codec: Codec, bytes: &[u8]) -> (r: (Vec<char>, bool))
    ensures
        r.0@ == decoded(codec, bytes@).0,
        r.1 == decoded(codec, bytes@).1,
        codec == Codec::Utf8 ==> r.1 == !valid_utf8(without_utf8_marker(bytes@)),
        codec == Codec::Utf8 && !r.1 ==> r.0@ == decode_utf8(without_utf8_marker(bytes@)),
{
    let enc = match codec {
        Codec::Utf8 => encoding_rs::UTF_8,
        Codec::Utf16Le => encoding_rs::UTF_16LE,
        Codec::Utf16Be => encoding_rs::UTF_16BE,
        Codec::Windows1252 => encoding_rs::WINDOWS_1252,
    };
    let (cow, had_errors) = enc.decode_with_bom_removal(bytes);
    (cow.chars().collect(), had_errors)
}

/// Relies on encoding_rs::Encoding::encode: UTF-8's output is the text's
/// UTF-8 bytes, with no error.
#[verifier::external_body]
fn encode_with(codec: Codec, text: &Vec<char>) -> (r: (Vec<u8>, bool))
    ensures
        r.0@ == encoded(codec, text@).0,
        r.1 == encoded(codec, text@).1,
        codec == Codec::Utf8 ==> (!r.1 && r.0@ == encode_utf8(text@)),
{
    let enc = match codec {
        Codec::Utf8 => encoding_rs::UTF_8,
        Codec::Utf16Le => encoding_rs::UTF_16LE,
        Codec::Utf16Be => encoding_rs::UTF_16BE,
        Codec::Windows1252 => encoding_rs::WINDOWS_1252,
    };
    let s: String = text.iter().collect();
    let (cow, _, had_errors) = enc.encode(&s);
    (cow.into_owned(), had_errors)
}

fn push_unit(out: &mut Vec<u8>, u: u32, little: bool)
    requires
        u < 0x10000,
    ensures
        final(out)@ == old(out)@ + unit_bytes(u as int, little),
{
    let lo = (u % 256) as u8;
    let hi = (u / 256) as u8;
    if little {
        out.push(lo);
        out.push(hi);
    } else {
        out.push(hi);
        out.push(lo);
    }
    assert(final(out)@ =~= old(out)@ + unit_bytes(u as int, little));
}

/// Encodes `text` as UTF-16 in the given byte order, without marker.
pub fn encode_utf16(text: &Vec<char>, little: bool) -> (r: Vec<u8>)
    ensures
        r@ == utf16_bytes(text@, little),
{
    let mut out: Vec<u8> = Vec::new();
    let mut i: usize = 0;
    assert(text@.take(0) =~= Seq::<char>::empty());
    while i < text.len()
        invariant
            i <= text@.len(),
            out@ == utf16_bytes(text@.take(i as int), little),
        decreases text@.len() - i,
    {
        let c = text[i];
        let v = c as u32;
        proof {
            vstd::utf8::char_is_scalar(c);
        }
        let ghost before = out@;
        if v < 0x10000 {
            push_unit(&mut out, v, little);
        } else {
            let w = v - 0x10000;
            push_unit(&mut out, 0xD800 + w / 0x400, little);
            push_unit(&mut out, 0xDC00 + w % 0x400, little);
        }
        assert(text@.take(i + 1).drop_last() =~= text@.take(i as int));
        assert(text@.take(i + 1).last() == c);
        assert(out@ =~= before + char_utf16(c, little));
        i += 1;
    }
    assert(text@.take(text@.len() as int) =~= text@);
    out
}

/// The codec for an uppercased encoding name.
pub fn codec_named(upper: &str) -> (r: Option<Codec>)
    ensures
        r == codec_for(upper@),
{
    if same_text(upper, "UTF-8") || same_text(upper, "UTF-8-BOM") || same_text(upper, "ASCII") {
        Some(Codec::Utf8)
    } else if same_text(upper, "UTF-16LE") {
        Some(Codec::Utf16Le)
    } else if same_text(upper, "UTF-16BE") {
        Some(Codec::Utf16Be)
    } else if same_text(upper, "WINDOWS-1252") || same_text(upper, "ISO-8859-1") {
        Some(Codec::Windows1252)
    } else {
        None
    }
}

/// The marker bytes for an uppercased target name.
pub fn marker_named(upper: &str) -> (r: Vec<u8>)
    ensures
        r@ == marker_bytes(upper@),
{
    if same_text(upper, "UTF-8-BOM") {
        vec![0xEF, 0xBB, 0xBF]
    } else if same_text(upper, "UTF-16LE") {
        vec![0xFF, 0xFE]
    } else if same_text(upper, "UTF-16BE") {
        vec![0xFE, 0xFF]
    } else {
        Vec::new()
    }
}

/// Copies `text` with its line endings normalized to LF.
pub fn convert_to_unix_endings(text: &Vec<char>) -> (r: Vec<char>)
    ensures
        r@ == unix_of(text@),
{
    let n = text.len();
    let mut out: Vec<char> = Vec::new();
    let mut i: usize = 0;
    assert(text@.subrange(0, n as int) =~= text@);
    assert(out@ + unix_of(text@) =~= unix_of(text@));
    while i < n
        invariant
            n == text@.len(),
            i <= n,
            unix_of(text@) == out@ + unix_of(text@.subrange(i as int, n as int)),
        decreases n - i,
    {
        let ghost rest = text@.subrange(i as int, n as int);
        let ghost before = out@;
        if text[i] == '\r' {
            out.push('\n');
            if i + 1 < n && text[i + 1] == '\n' {
                assert(rest.subrange(2, rest.len() as int) =~= text@.subrange(i + 2, n as int));
                i += 2;
            } else {
                assert(rest.subrange(1, rest.len() as int) =~= text@.subrange(i + 1, n as int));
                i += 1;
            }
        } else {
            out.push(text[i]);
            assert(rest.subrange(1, rest.len() as int) =~= text@.subrange(i + 1, n as int));
            i += 1;
        }
        assert(out@ + unix_of(text@.subrange(i as int, n as int)) =~= before + unix_of(rest));
    }
    assert(text@.subrange(n as int, n as int) =~= Seq::<char>::empty());
    assert(out@ + Seq::<char>::empty() =~= out@);
    out
}

fn expand_to_crlf(text: &Vec<char>) -> (r: Vec<char>)
    ensures
        r@ == crlf_of(text@),
{
    let n = text.len();
    let mut out: Vec<char> = Vec::new();
    let mut i: usize = 0;
    assert(text@.subrange(0, n as int) =~= text@);
    assert(out@ + crlf_of(text@) =~= crlf_of(text@));
    while i < n
        invariant
            n == text@.len(),
            i <= n,
            crlf_of(text@) == out@ + crlf_of(text@.subrange(i as int, n as int)),
        decreases n - i,
    {
        let ghost rest = text@.subrange(i as int, n as int);
        let ghost before = out@;
        if text[i] == '\n' {
            out.push('\r');
            out.push('\n');
        } else {
            out.push(text[i]);
        }
        assert(rest.subrange(1, rest.len() as int) =~= text@.subrange(i + 1, n as int));
        i += 1;
        assert(out@ + crlf_of(text@.subrange(i as int, n as int)) =~= before + crlf_of(rest));
    }
    assert(text@.subrange(n as int, n as int) =~= Seq::<char>::empty());
    assert(out@ + Seq::<char>::empty() =~= out@);
    out
}

/// Copies `text` with every line ending written as CRLF.
pub fn convert_to_windows_endings(text: &Vec<char>) -> (r: Vec<char>)
    ensures
        r@ == windows_of(text@),
{
    let unix = convert_to_unix_endings(text);
    expand_to_crlf(&unix)
}

/// The bytes that encoding `t` for the target codec gives, or `None` where
/// the target cannot represent it. UTF-16 never fails on characters.
pub open spec fn encoded_for(dst: Codec, t: Seq<char>) -> Option<Seq<u8>> {
    match dst {
        Codec::Utf16Le => Some(utf16_bytes(t, true)),
        Codec::Utf16Be => Some(utf16_bytes(t, false)),
        _ => if encoded(dst, t).1 {
            None
        } else {
            Some(encoded(dst, t).0)
        },
    }
}

/// The output of converting `input`, read as `from`, to the target named
/// `to` under the line-ending policy, or `None` where it fails: the target's
/// marker, then the encoded text.
pub open spec fn conversion_output(input: Seq<u8>, from: Seq<char>, to: Seq<char>, le: LineEnding) -> Option<Seq<u8>> {
    match (codec_for(upper_of(from)), codec_for(upper_of(to))) {
        (Some(src), Some(dst)) => {
            let d = decoded(src, input);
            if d.1 {
                None
            } else {
                match encoded_for(dst, apply_line_ending(d.0, le)) {
                    Some(e) => Some(marker_bytes(upper_of(to)) + e),
                    None => None,
                }
            }
        },
        _ => None,
    }
}

/// Transcodes whole buffers between the supported encodings.
pub struct EncodingConverter;

impl EncodingConverter {
    /// Resolves an encoding name, ignoring case, to its codec.
    pub fn get_encoding(name: &str) -> (r: Result<Codec, ConversionError>)
        ensures
            match codec_for(upper_of(name@)) {
                Some(c) => r matches Ok(x) && x == c,
                None => r matches Err(ConversionError::UnsupportedEncoding(n)) && n@ == name@,
            },
    {
        let upper = to_upper(name);
        match codec_named(upper.as_str()) {
            Some(c) => Ok(c),
            None => Err(ConversionError::UnsupportedEncoding(String::from_str(name))),
        }
    }

    /// Resolves the source and the target codec, the source first.
    pub fn get_codecs(from: &FileEncoding, to: &str) -> (r: Result<(Codec, Codec), ConversionError>)
        ensures
            match (codec_for(upper_of(from.encoding@)), codec_for(upper_of(to@))) {
                (Some(a), Some(b)) => r matches Ok(x) && x == (a, b),
                (None, _) => r matches Err(ConversionError::UnsupportedEncoding(n))
                    && n@ == from.encoding@,
                (Some(_), None) => r matches Err(ConversionError::UnsupportedEncoding(n))
                    && n@ == to@,
            },
    {
        let source_enc = Self::get_encoding(from.encoding.as_str())?;
        let target_enc = Self::get_encoding(to)?;
        Ok((source_enc, target_enc))
    }

    /// The marker bytes for a target name, ignoring case.
    pub fn get_bom(encoding: &str) -> (r: Vec<u8>)
        ensures
            r@ == marker_bytes(upper_of(encoding@)),
    {
        let upper = to_upper(encoding);
        marker_named(upper.as_str())
    }

    /// Decodes `input` strictly as `from`, applies the line-ending policy,
    /// encodes to `to`, and puts the target's marker in front where it has
    /// one. Any decode or encode error fails the whole conversion.
    pub fn convert(input: &[u8], from: &FileEncoding, to: &str, line_ending: LineEnding) -> (r: Result<Vec<u8>, ConversionError>)
        ensures
            r is Ok <==> conversion_output(input@, from.encoding@, to@, line_ending) is Some,
            r is Ok ==> r->Ok_0@ == conversion_output(input@, from.encoding@, to@, line_ending).unwrap(),
            codec_for(upper_of(from.encoding@)) is None ==> (r matches Err(
                ConversionError::UnsupportedEncoding(n)) && n@ == from.encoding@),
            codec_for(upper_of(from.encoding@)) is Some && codec_for(upper_of(to@)) is None ==> (
            r matches Err(ConversionError::UnsupportedEncoding(n)) && n@ == to@),
            codec_for(upper_of(from.encoding@)) is Some && codec_for(upper_of(to@)) is Some ==> (
            r is Err ==> r matches Err(ConversionError::EncodingError(_))),
            codec_for(upper_of(from.encoding@)) == Some(Codec::Utf8) && codec_for(upper_of(to@))
                is Some && !valid_utf8(without_utf8_marker(input@)) ==> (r matches Err(
                ConversionError::EncodingError(_))),
            codec_for(upper_of(from.encoding@)) == Some(Codec::Utf8) && codec_for(upper_of(to@))
                == Some(Codec::Utf8) && line_ending == LineEnding::Keep && valid_utf8(
                without_utf8_marker(input@)) ==> (r is Ok && r->Ok_0@ == marker_bytes(
                upper_of(to@)) + without_utf8_marker(input@)),
    {
        let (source, target) = Self::get_codecs(from, to)?;
        let (text, had_errors) = decode_with(source, input);
        if had_errors {
            let mut msg = String::from_str("Failed to decode from ");
            msg.append(from.encoding.as_str());
            return Err(ConversionError::EncodingError(msg));
        }
        let content = match line_ending {
            LineEnding::Keep => text,
            LineEnding::Unix => convert_to_unix_endings(&text),
            LineEnding::Windows => convert_to_windows_endings(&text),
        };
        let mut output = match target {
            Codec::Utf16Le => encode_utf16(&content, true),
            Codec::Utf16Be => encode_utf16(&content, false),
            _ => {
                let (bytes, had_errors) = encode_with(target, &content);
                if had_errors {
                    let mut msg = String::from_str("Failed to encode to ");
                    msg.append(to);
                    return Err(ConversionError::EncodingError(msg));
                }
                bytes
            },
        };
        let mut result = Self::get_bom(to);
        result.append(&mut output);
        proof {
            if source == Codec::Utf8 && target == Codec::Utf8 && line_ending == LineEnding::Keep
                && valid_utf8(without_utf8_marker(input@)) {
                vstd::utf8::decode_utf8_encode_utf8(without_utf8_marker(input@));
            }
        }
        Ok(result)
    }
}

/// Text without a carriage return.
pub open spec fn no_cr(s: Seq<char>) -> bool {
    forall|i: int| 0 <= i < s.len() ==> s[i] != '\r'
}

/// Unix normalization leaves no carriage return behind.
pub proof fn lemma_unix_has_no_cr(s: Seq<char>)
    ensures
        no_cr(unix_of(s)),
    decreases s.len(),
{
    if s.len() > 0 {
        if s[0] == '\r' && s.len() >= 2 && s[1] == '\n' {
            lemma_unix_has_no_cr(s.subrange(2, s.len() as int));
        } else {
            lemma_unix_has_no_cr(s.subrange(1, s.len() as int));
        }
    }
}

/// Text without a carriage return is left as it is by Unix normalization.
pub proof fn lemma_unix_keeps_cr_free(s: Seq<char>)
    requires
        no_cr(s),
    ensures
        unix_of(s) == s,
    decreases s.len(),
{
    if s.len() > 0 {
        let rest = s.subrange(1, s.len() as int);
        assert(no_cr(rest)) by {
            assert forall|i: int| 0 <= i < rest.len() implies rest[i] != '\r' by {
                assert(rest[i] == s[i + 1]);
            }
        }
        lemma_unix_keeps_cr_free(rest);
        assert(seq![s[0]] + rest =~= s);
    }
}

/// Unix normalization undoes the LF-to-CRLF expansion of CR-free text.
pub proof fn lemma_unix_undoes_crlf(u: Seq<char>)
    requires
        no_cr(u),
    ensures
        unix_of(crlf_of(u)) == u,
    decreases u.len(),
{
    if u.len() > 0 {
        let rest = u.subrange(1, u.len() as int);
        assert(no_cr(rest)) by {
            assert forall|i: int| 0 <= i < rest.len() implies rest[i] != '\r' by {
                assert(rest[i] == u[i + 1]);
            }
        }
        lemma_unix_undoes_crlf(rest);
        let w = crlf_of(u);
        if u[0] == '\n' {
            assert(w.subrange(2, w.len() as int) =~= crlf_of(rest));
        } else {
            assert(w.subrange(1, w.len() as int) =~= crlf_of(rest));
        }
        assert(seq![u[0]] + rest =~= u);
    }
}

/// Applying the Unix normalization twice gives what applying it once gives.
pub proof fn lemma_unix_idempotent(s: Seq<char>)
    ensures
        unix_of(unix_of(s)) == unix_of(s),
{
    lemma_unix_has_no_cr(s);
    lemma_unix_keeps_cr_free(unix_of(s));
}

/// Applying the Windows normalization twice gives what applying it once gives.
pub proof fn lemma_windows_idempotent(s: Seq<char>)
    ensures
        windows_of(windows_of(s)) == windows_of(s),
{
    lemma_unix_has_no_cr(s);
    lemma_unix_undoes_crlf(unix_of(s));
}

} // verus!
