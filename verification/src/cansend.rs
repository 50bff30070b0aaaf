//! Reading a frame from its text form `<id>#<data>`: the identifier and the
//! payload in hexadecimal, or `R` in place of the payload for a remote
//! request.

use vstd::prelude::*;
use vstd::utf8::is_ascii_chars;
use crate::frame::{frame_new, Frame, FrameView};

verus! {

/// Largest number of payload bytes that the text form can give.
pub const CAN_MSG_SIZE: usize = 8;

/// The character between identifier and payload, `#`.
pub const SEPARATOR: u8 = 0x23;

/// The character that stands for the payload of a remote request, `R`.
pub const REMOTE_MARK: u8 = 0x52;

/// The plus sign, `+`.
pub const PLUS: u8 = 0x2b;

/// The digit zero, `0`.
pub const ZERO: u8 = 0x30;

/// The bytes of a text that holds ASCII characters only.
pub open spec fn ascii_bytes(text: Seq<char>) -> Option<Seq<u8>> {
    if is_ascii_chars(text) {
        Some(Seq::new(text.len(), |i: int| text[i] as u8))
    } else {
        None
    }
}

/// The value of a hexadecimal digit: `0` to `9`, `a` to `f` or `A` to `F`.
pub open spec fn hex_digit(c: u8) -> Option<u8> {
    if 0x30 <= c <= 0x39 {
        Some((c - 0x30) as u8)
    } else if 0x61 <= c <= 0x66 {
        Some((c - 0x61 + 10) as u8)
    } else if 0x41 <= c <= 0x46 {
        Some((c - 0x41 + 10) as u8)
    } else {
        None
    }
}

/// The value of a group of two characters, read as a number in base 16
/// the way Rust reads an unsigned integer: two digits, or a plus sign and one
/// digit.
pub open spec fn hex_pair(high: u8, low: u8) -> Option<u8> {
    if high == PLUS {
        hex_digit(low)
    } else {
        match (hex_digit(high), hex_digit(low)) {
            (Some(h), Some(l)) => Some((16 * h + l) as u8),
            _ => None,
        }
    }
}

/// The value of the `k`-th group of two characters of a text.
pub open spec fn pair_at(text: Seq<u8>, k: int) -> Option<u8> {
    hex_pair(text[2 * k], text[2 * k + 1])
}

/// The bytes that a text of groups of two characters stands for. There are
/// none when a character is left over or a group has no value.
pub open spec fn hex_pairs(text: Seq<u8>) -> Option<Seq<u8>> {
    if text.len() % 2 == 0 && forall|k: int|
        0 <= k < text.len() / 2 ==> (#[trigger] pair_at(text, k)) is Some {
        Some(Seq::new(text.len() / 2, |k: int| pair_at(text, k).unwrap()))
    } else {
        None
    }
}

/// The payload that a text stands for: up to eight groups of two characters.
pub open spec fn data_bytes(text: Seq<u8>) -> Option<Seq<u8>> {
    if text.len() > 2 * CAN_MSG_SIZE {
        None
    } else {
        hex_pairs(text)
    }
}

/// The number whose digits in base 256 are `bytes`, most significant first.
pub open spec fn be_value(bytes: Seq<u8>) -> nat
    decreases bytes.len(),
{
    if bytes.len() == 0 {
        0
    } else {
        be_value(bytes.drop_last()) * 256 + bytes.last() as nat
    }
}

/// The identifier that a text stands for: a text of odd length gets a
/// zero in front, then up to four groups of two characters are read as one
/// number, most significant first.
pub open spec fn id_value(text: Seq<u8>) -> Option<u32> {
    let padded = if text.len() % 2 == 1 {
        seq![ZERO] + text
    } else {
        text
    };
    match hex_pairs(padded) {
        Some(bytes) if bytes.len() <= 4 => Some(be_value(bytes) as u32),
        _ => None,
    }
}

/// Whether position `p` holds the only separator of a text.
pub open spec fn is_sole_separator(text: Seq<u8>, p: int) -> bool {
    &&& 0 <= p < text.len()
    &&& text[p] == SEPARATOR
    &&& forall|q: int| 0 <= q < text.len() && q != p ==> text[q] != SEPARATOR
}

/// The frame that an identifier text and a payload text stand for. The
/// payload text `R` gives a remote request without payload.
pub open spec fn frame_of_parts(id_text: Seq<u8>, data_text: Seq<u8>) -> Option<FrameView> {
    match id_value(id_text) {
        None => None,
        Some(id) => {
            if data_text == seq![REMOTE_MARK] {
                frame_new(id, Seq::empty(), true, false).ok()
            } else {
                match data_bytes(data_text) {
                    None => None,
                    Some(data) => frame_new(id, data, false, false).ok(),
                }
            }
        },
    }
}

/// The frame that a text stands for. The text must hold exactly one separator.
pub open spec fn frame_of_text(text: Seq<u8>) -> Option<FrameView> {
    if exists|p: int| is_sole_separator(text, p) {
        let p = choose|p: int| is_sole_separator(text, p);
        frame_of_parts(text.subrange(0, p), text.subrange(p + 1, text.len() as int))
    } else {
        None
    }
}

fn digit_of(c: u8) -> (r: Option<u8>)
    ensures
        r == hex_digit(c),
{
    if 0x30 <= c && c <= 0x39 {
        Some(c - 0x30)
    } else if 0x61 <= c && c <= 0x66 {
        Some(c - 0x61 + 10)
    } else if 0x41 <= c && c <= 0x46 {
        Some(c - 0x41 + 10)
    } else {
        None
    }
}

fn pair_of(high: u8, low: u8) -> (r: Option<u8>)
    ensures
        r == hex_pair(high, low),
{
    if high == PLUS {
        digit_of(low)
    } else {
        match (digit_of(high), digit_of(low)) {
            (Some(h), Some(l)) => Some(16 * h + l),
            _ => None,
        }
    }
}

fn pairs_of(text: &[u8]) -> (r: Option<Vec<u8>>)
    ensures
        match r {
            Some(v) => hex_pairs(text@) == Some(v@),
            None => hex_pairs(text@) is None,
        },
{
    if text.len() % 2 != 0 {
        return None;
    }
    let mut result: Vec<u8> = Vec::new();
    let mut o: usize = 0;
    while o < text.len()
        invariant
            o % 2 == 0,
            text.len() % 2 == 0,
            o <= text.len(),
            result.len() == o / 2,
            forall|k: int| 0 <= k < o / 2 ==> #[trigger] pair_at(text@, k) == Some(result[k]),
        decreases text.len() - o,
    {
        match pair_of(text[o], text[o + 1]) {
            Some(byte) => {
                assert(pair_at(text@, o as int / 2) == Some(byte));
                result.push(byte);
            },
            None => {
                assert(pair_at(text@, o as int / 2) is None);
                return None;
            },
        }
        o += 2;
    }
    assert(result@ =~= Seq::new(text@.len() / 2, |k: int| pair_at(text@, k).unwrap()));
    Some(result)
}

fn data_of(text: &[u8]) -> (r: Option<Vec<u8>>)
    ensures
        match r {
            Some(v) => data_bytes(text@) == Some(v@),
            None => data_bytes(text@) is None,
        },
{
    if text.len() % 2 != 0 || text.len() > (CAN_MSG_SIZE * 2) {
        None
    } else {
        pairs_of(text)
    }
}

fn id_of(text: &[u8]) -> (r: Option<u32>)
    ensures
        r == id_value(text@),
{
    if text.len() > 8 {
        return None;
    }
    let mut padded: Vec<u8> = Vec::new();
    if text.len() % 2 != 0 {
        padded.push(ZERO);
    }
    padded.extend_from_slice(text);
    assert(padded@ =~= (if text@.len() % 2 == 1 {
        seq![ZERO] + text@
    } else {
        text@
    }));
    match pairs_of(padded.as_slice()) {
        None => None,
        Some(bytes) => {
            let mut id: u32 = 0;
            let mut k: usize = 0;
            while k < bytes.len()
                invariant
                    k <= bytes.len() <= 4,
                    id == be_value(bytes@.take(k as int)),
                    k == 0 ==> id == 0,
                    k == 1 ==> id < 0x100,
                    k == 2 ==> id < 0x1_0000,
                    k == 3 ==> id < 0x100_0000,
                decreases bytes.len() - k,
            {
                assert(bytes@.take(k + 1).drop_last() =~= bytes@.take(k as int));
                id = id * 256 + bytes[k] as u32;
                k += 1;
            }
            assert(bytes@.take(k as int) =~= bytes@);
            Some(id)
        },
    }
}

fn frame_of(text: &[u8]) -> (r: Option<Frame>)
    ensures
        match r {
            Some(f) => frame_of_text(text@) == Some(f@),
            None => frame_of_text(text@) is None,
        },
{
    let mut p: usize = 0;
    while p < text.len() && text[p] != SEPARATOR
        invariant
            p <= text.len(),
            forall|q: int| 0 <= q < p ==> text[q] != SEPARATOR,
        decreases text.len() - p,
    {
        p += 1;
    }
    if p == text.len() {
        return None;
    }
    let mut q: usize = p + 1;
    while q < text.len() && text[q] != SEPARATOR
        invariant
            p < q <= text.len(),
            forall|j: int| p < j < q ==> text[j] != SEPARATOR,
        decreases text.len() - q,
    {
        q += 1;
    }
    if q < text.len() {
        assert(!is_sole_separator(text@, p as int));
        assert(!is_sole_separator(text@, q as int));
        return None;
    }
    assert(is_sole_separator(text@, p as int));
    assert((choose|c: int| is_sole_separator(text@, c)) == p);
    let id_text = &text[0..p];
    let data_text = &text[p + 1..text.len()];
    let id: u32 = match id_of(id_text) {
        None => {
            return None;
        },
        Some(id) => id,
    };
    if data_text.len() == 1 && data_text[0] == REMOTE_MARK {
        assert(data_text@ =~= seq![REMOTE_MARK]);
        let no_data: [u8; 0] = [];
        assert(no_data@ =~= Seq::<u8>::empty());
        match Frame::new(id, no_data.as_slice(), true, false) {
            Ok(frame) => Some(frame),
            Err(_) => None,
        }
    } else {
        assert(data_text@ != seq![REMOTE_MARK]) by {
            if data_text@ == seq![REMOTE_MARK] {
                assert(data_text@.len() == 1);
                assert(data_text@[0] == seq![REMOTE_MARK][0]);
            }
        }
        match data_of(data_text) {
            None => None,
            Some(data) => match Frame::new(id, data.as_slice(), false, false) {
                Ok(frame) => Some(frame),
                Err(_) => None,
            },
        }
    }
}

/// Reads a payload from its text: up to eight groups of two hexadecimal
/// characters. There is no payload when the text is longer, has a character
/// left over, or holds a group that is no number.
pub fn data_string_to_hex(input: String) -> (r: Option<Vec<u8>>)
    ensures
        match r {
            Some(v) => ascii_bytes(input@) matches Some(text) && data_bytes(text) == Some(v@),
            None => ascii_bytes(input@) matches Some(text) ==> data_bytes(text) is None,
        },
{
    broadcast use vstd::string::is_ascii_spec_bytes;

    let text = input.as_str();
    if !text.is_ascii() {
        return None;
    }
    data_of(text.as_bytes())
}

/// Reads an identifier from its text: up to eight hexadecimal characters,
/// most significant first. There is no identifier when the text is longer or
/// holds a group that is no number.
pub fn id_string_to_hex(input: String) -> (r: Option<u32>)
    ensures
        r == match ascii_bytes(input@) {
            Some(text) => id_value(text),
            None => None,
        },
{
    broadcast use vstd::string::is_ascii_spec_bytes;

    let text = input.as_str();
    if !text.is_ascii() {
        return None;
    }
    id_of(text.as_bytes())
}

/// Reads a frame from its text `<id>#<data>`. There is no frame when the
/// text does not hold exactly one `#`, when identifier or payload cannot be
/// read, or when the identifier does not fit in 29 bits.
pub fn parse_frame_string(frame_string: String) -> (r: Option<Frame>)
    ensures
        match r {
            Some(f) => ascii_bytes(frame_string@) matches Some(text) && frame_of_text(text)
                == Some(f@),
            None => ascii_bytes(frame_string@) matches Some(text) ==> frame_of_text(text) is None,
        },
{
    broadcast use vstd::string::is_ascii_spec_bytes;

    let text = frame_string.as_str();
    if !text.is_ascii() {
        return None;
    }
    frame_of(text.as_bytes())
}

} // verus!
