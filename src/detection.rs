use vstd::prelude::*;
use vstd::string::StringExecFns;
use vstd::utf8::valid_utf8;

verus! {

/// The encoding found for one file, and the marker it starts with, if any.
#[derive(Debug, Clone)]
pub struct FileEncoding {
    pub encoding: String,
    pub bom: Option<String>,
}

pub open spec fn opt_text_view(o: Option<String>) -> Option<Seq<char>> {
    match o {
        Some(s) => Some(s@),
        None => None,
    }
}

impl View for FileEncoding {
    type V = (Seq<char>, Option<Seq<char>>);

    open spec fn view(&self) -> (Seq<char>, Option<Seq<char>>) {
        (self.encoding@, opt_text_view(self.bom))
    }
}

impl PartialEq for FileEncoding {
    fn eq(&self, o: &FileEncoding) -> (r: bool) {
        if self.encoding != o.encoding {
            return false;
        }
        match (&self.bom, &o.bom) {
            (Some(a), Some(b)) => *a == *b,
            (None, None) => true,
            _ => false,
        }
    }
}

impl vstd::std_specs::cmp::PartialEqSpecImpl for FileEncoding {
    open spec fn obeys_eq_spec() -> bool {
        true
    }

    open spec fn eq_spec(&self, o: &FileEncoding) -> bool {
        self@ == o@
    }
}

/// A byte-order marker found at the start of a byte sequence.
#[derive(Debug)]
pub struct BomInfo {
    pub bom_type: &'static str,
    pub skip_bytes: usize,
}

/// The marker that `b` starts with, as (name, length), checked in a fixed
/// priority order: the 4-byte UTF-32LE marker before its 2-byte UTF-16LE prefix.
pub open spec fn marker_of(b: Seq<u8>) -> Option<(Seq<char>, nat)> {
    if b.len() >= 3 && b[0] == 0xEFu8 && b[1] == 0xBBu8 && b[2] == 0xBFu8 {
        Some(("UTF-8"@, 3))
    } else if b.len() >= 2 && b[0] == 0xFEu8 && b[1] == 0xFFu8 {
        Some(("UTF-16BE"@, 2))
    } else if b.len() >= 4 && b[0] == 0xFFu8 && b[1] == 0xFEu8 && b[2] == 0u8 && b[3] == 0u8 {
        Some(("UTF-32LE"@, 4))
    } else if b.len() >= 4 && b[0] == 0u8 && b[1] == 0u8 && b[2] == 0xFEu8 && b[3] == 0xFFu8 {
        Some(("UTF-32BE"@, 4))
    } else if b.len() >= 2 && b[0] == 0xFFu8 && b[1] == 0xFEu8 {
        Some(("UTF-16LE"@, 2))
    } else {
        None
    }
}

pub open spec fn all_ascii(b: Seq<u8>) -> bool {
    forall|i: int| 0 <= i < b.len() ==> b[i] < 128
}

pub open spec fn has_byte_in(b: Seq<u8>, lo: u8, hi: u8) -> bool {
    exists|i: int| 0 <= i < b.len() && lo <= #[trigger] b[i] <= hi
}

/// What the single-byte Western disambiguation makes of a heuristic guess.
pub open spec fn refine_guess(b: Seq<u8>, guess: Seq<char>) -> Seq<char> {
    if (guess == "ISO-8859-1"@ || guess == "windows-1252"@) && has_byte_in(b, 0x80, 0xFF) {
        if has_byte_in(b, 0x80, 0x9F) {
            "windows-1252"@
        } else {
            "ISO-8859-1"@
        }
    } else {
        guess
    }
}

/// Whether the heuristic classifier is consulted for `b`.
pub open spec fn needs_heuristic(b: Seq<u8>) -> bool {
    b.len() > 0 && marker_of(b) is None && !all_ascii(b) && !valid_utf8(b)
}

/// The detection result for `b`, given the heuristic classifier's label `guess`
/// (which matters only where `needs_heuristic(b)`).
pub open spec fn detected(b: Seq<u8>, guess: Seq<char>) -> (Seq<char>, Option<Seq<char>>) {
    if b.len() == 0 {
        ("empty file"@, None)
    } else if marker_of(b) is Some {
        (marker_of(b).unwrap().0, Some(marker_of(b).unwrap().0))
    } else if all_ascii(b) {
        ("ASCII"@, None)
    } else if valid_utf8(b) {
        ("UTF-8"@, None)
    } else {
        (refine_guess(b, guess), None)
    }
}

/// The charset name that the frequency-based classifier guesses for `b`.
pub uninterp spec fn charset_guess(b: Seq<u8>) -> Seq<char>;

/// The encoding name that `charset2encoding` gives for a charset name.
pub open spec fn encoding_name_for(charset: Seq<char>) -> Seq<char> {
    if charset == "CP932"@ {
        "windows-31j"@
    } else if charset == "CP949"@ {
        "windows-949"@
    } else if charset == "MacCyrillic"@ {
        "x-mac-cyrillic"@
    } else {
        charset
    }
}

/// Whether `b` has a byte at or above 0x80 other than 0xA0: on such input the
/// classifier settles in its high-byte state and returns a guess.
pub open spec fn classifier_safe(b: Seq<u8>) -> bool {
    exists|i: int| 0 <= i < b.len() && 0x80 <= #[trigger] b[i] && b[i] != 0xA0u8
}

/// The label the heuristic step works from: the classifier's guess where it
/// can run; otherwise the only non-ASCII byte is 0xA0, a no-break space in
/// the single-byte Western encoding, which is taken as that encoding.
pub open spec fn heuristic_label(b: Seq<u8>) -> Seq<char> {
    if classifier_safe(b) {
        encoding_name_for(charset_guess(b))
    } else {
        "ISO-8859-1"@
    }
}

/// Relies on chardet::detect: its first component, the charset name, depends on
/// the bytes alone. Input without a byte at or above 0x80 other than 0xA0 is
/// left out: there the detector can end outside the two states its `close`
/// handles, and panics.
#[verifier::external_body]
fn guess_charset(b: &[u8]) -> (r: String)
    requires
        classifier_safe(b@),
    ensures
        r@ == charset_guess(b@),
{
    chardet::detect(b).0
}

/// Relies on chardet::charset2encoding: three charset names are renamed, the
/// others are handed back.
#[verifier::external_body]
fn charset_to_encoding(charset: &String) -> (r: String)
    ensures
        r@ == encoding_name_for(charset@),
{
    chardet::charset2encoding(charset).to_string()
}

/// Relies on std::str::from_utf8: it succeeds exactly on well-formed UTF-8.
#[verifier::external_body]
fn is_utf8(content: &[u8]) -> (r: bool)
    ensures
        r == valid_utf8(content@),
{
    std::str::from_utf8(content).is_ok()
}

/// Finds the byte-order marker at the start of `content`.
pub fn detect_bom(content: &[u8]) -> (r: Option<BomInfo>)
    ensures
        match marker_of(content@) {
            None => r is None,
            Some((name, n)) => r is Some && r.unwrap().bom_type@ == name
                && r.unwrap().skip_bytes == n,
        },
{
    if content.len() < 2 {
        return None;
    }
    let n = content.len();
    if n >= 3 && content[0] == 0xEF && content[1] == 0xBB && content[2] == 0xBF {
        Some(BomInfo { bom_type: "UTF-8", skip_bytes: 3 })
    } else if content[0] == 0xFE && content[1] == 0xFF {
        Some(BomInfo { bom_type: "UTF-16BE", skip_bytes: 2 })
    } else if n >= 4 && content[0] == 0xFF && content[1] == 0xFE && content[2] == 0
        && content[3] == 0 {
        Some(BomInfo { bom_type: "UTF-32LE", skip_bytes: 4 })
    } else if n >= 4 && content[0] == 0 && content[1] == 0 && content[2] == 0xFE
        && content[3] == 0xFF {
        Some(BomInfo { bom_type: "UTF-32BE", skip_bytes: 4 })
    } else if content[0] == 0xFF && content[1] == 0xFE {
        Some(BomInfo { bom_type: "UTF-16LE", skip_bytes: 2 })
    } else {
        None
    }
}

fn is_ascii(content: &[u8]) -> (r: bool)
    ensures
        r == all_ascii(content@),
{
    let mut i: usize = 0;
    while i < content.len()
        invariant
            i <= content@.len(),
            forall|j: int| 0 <= j < i ==> content@[j] < 128,
        decreases content@.len() - i,
    {
        if content[i] >= 128 {
            return false;
        }
        i += 1;
    }
    true
}

/// Whether some byte of `content` lies in `lo..=hi`.
fn any_byte_in(content: &[u8], lo: u8, hi: u8) -> (r: bool)
    ensures
        r == has_byte_in(content@, lo, hi),
{
    let mut i: usize = 0;
    while i < content.len()
        invariant
            i <= content@.len(),
            forall|j: int| 0 <= j < i ==> !(lo <= #[trigger] content@[j] <= hi),
        decreases content@.len() - i,
    {
        if lo <= content[i] && content[i] <= hi {
            return true;
        }
        i += 1;
    }
    false
}

fn looks_like_windows1252_or_iso8859_1(content: &[u8]) -> (r: bool)
    ensures
        r == (has_byte_in(content@, 0x80, 0x9F) || has_byte_in(content@, 0xA0, 0xFF)),
{
    any_byte_in(content, 0x80, 0x9F) || any_byte_in(content, 0xA0, 0xFF)
}

/// Turns the heuristic classifier's label for `content` into the reported
/// encoding, telling the two single-byte Western aliases apart by the
/// presence of a byte in 0x80..=0x9F.
pub fn refine_heuristic(content: &[u8], guess: &String) -> (r: FileEncoding)
    ensures
        r@ == (refine_guess(content@, guess@), None::<Seq<char>>),
{
    let iso = String::from_str("ISO-8859-1");
    let win = String::from_str("windows-1252");
    if *guess == iso || *guess == win {
        if looks_like_windows1252_or_iso8859_1(content) {
            proof {
                assert(has_byte_in(content@, 0x80, 0xFF)) by {
                    if has_byte_in(content@, 0x80, 0x9F) {
                        let i = choose|i: int| 0 <= i < content@.len() && 0x80 <= #[trigger] content@[i] <= 0x9F;
                        assert(0x80 <= content@[i] <= 0xFF);
                    } else {
                        let i = choose|i: int| 0 <= i < content@.len() && 0xA0 <= #[trigger] content@[i] <= 0xFF;
                        assert(0x80 <= content@[i] <= 0xFF);
                    }
                }
            }
            let encoding = if any_byte_in(content, 0x80, 0x9F) {
                win
            } else {
                iso
            };
            return FileEncoding { encoding, bom: None };
        } else {
            proof {
                if has_byte_in(content@, 0x80, 0xFF) {
                    let i = choose|i: int| 0 <= i < content@.len() && 0x80 <= #[trigger] content@[i] <= 0xFF;
                    if content@[i] <= 0x9F {
                        assert(has_byte_in(content@, 0x80, 0x9F));
                    } else {
                        assert(has_byte_in(content@, 0xA0, 0xFF));
                    }
                }
            }
        }
    }
    FileEncoding { encoding: guess.clone(), bom: None }
}

/// Whether some byte of `content` is at or above 0x80 and is not 0xA0.
fn has_classifier_byte(content: &[u8]) -> (r: bool)
    ensures
        r == classifier_safe(content@),
{
    let mut i: usize = 0;
    while i < content.len()
        invariant
            i <= content@.len(),
            forall|j: int| 0 <= j < i ==> !(0x80 <= #[trigger] content@[j] && content@[j] != 0xA0u8),
        decreases content@.len() - i,
    {
        if content[i] >= 0x80 && content[i] != 0xA0 {
            return true;
        }
        i += 1;
    }
    false
}

/// Classifies `content`: the empty sequence, then a leading marker, then pure
/// ASCII, then well-formed UTF-8, and only then the heuristic step.
pub fn detect_encoding(content: &[u8]) -> (r: FileEncoding)
    ensures
        r@ == detected(content@, heuristic_label(content@)),
{
    if content.len() == 0 {
        return FileEncoding { encoding: String::from_str("empty file"), bom: None };
    }
    if let Some(bom_info) = detect_bom(content) {
        return FileEncoding {
            encoding: String::from_str(bom_info.bom_type),
            bom: Some(String::from_str(bom_info.bom_type)),
        };
    }
    if is_ascii(content) {
        return FileEncoding { encoding: String::from_str("ASCII"), bom: None };
    }
    if is_utf8(content) {
        return FileEncoding { encoding: String::from_str("UTF-8"), bom: None };
    }
    if has_classifier_byte(content) {
        let charset = guess_charset(content);
        let guess = charset_to_encoding(&charset);
        refine_heuristic(content, &guess)
    } else {
        refine_heuristic(content, &String::from_str("ISO-8859-1"))
    }
}

/// A copy of `e` with the same label and marker.
pub fn copy_encoding(e: &FileEncoding) -> (r: FileEncoding)
    ensures
        r@ == e@,
{
    let bom = match &e.bom {
        Some(b) => Some(b.clone()),
        None => None,
    };
    FileEncoding { encoding: e.encoding.clone(), bom }
}

/// Bytes that start with EF BB BF are detected as UTF-8 with a marker,
/// whatever follows and whatever the heuristic classifier would say.
pub proof fn lemma_utf8_marker_wins(b: Seq<u8>, guess: Seq<char>)
    requires
        b.len() >= 3,
        b[0] == 0xEFu8,
        b[1] == 0xBBu8,
        b[2] == 0xBFu8,
    ensures
        detected(b, guess) == ("UTF-8"@, Some("UTF-8"@)),
{
}

/// Non-empty bytes that are all below 128 carry no marker and are detected
/// as ASCII.
pub proof fn lemma_ascii_detected(b: Seq<u8>, guess: Seq<char>)
    requires
        b.len() > 0,
        all_ascii(b),
    ensures
        marker_of(b) is None,
        detected(b, guess) == ("ASCII"@, None::<Seq<char>>),
{
    assert(b[0] < 128);
    if b.len() >= 3 {
        assert(b[2] < 128);
    }
    if b.len() >= 2 {
        assert(b[1] < 128);
    }
}

} // verus!
