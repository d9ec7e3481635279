//! VST3 class IDs as written in `moduleinfo.json`, and the switch between the
//! COM byte order used on Windows and the plain order used elsewhere.
use vstd::prelude::*;

verus! {

/// Why a class ID string could not be decoded.
#[derive(Debug, Clone, Copy, PartialEq, Eq, Structural)]
pub enum UidError {
    /// The string does not hold exactly 32 characters.
    WrongLength,
    /// One of the 32 characters is not a hexadecimal digit.
    InvalidDigit,
}

pub open spec fn is_hex_digit(c: char) -> bool {
    ('0' <= c && c <= '9') || ('a' <= c && c <= 'f') || ('A' <= c && c <= 'F')
}

/// The value of a hexadecimal digit, upper or lower case.
pub open spec fn hex_digit_value(c: char) -> int {
    if '0' <= c && c <= '9' {
        c as int - '0' as int
    } else if 'a' <= c && c <= 'f' {
        c as int - 'a' as int + 10
    } else {
        c as int - 'A' as int + 10
    }
}

/// The upper case digit for a value below 16.
pub open spec fn upper_hex_digit(n: int) -> char {
    if n < 10 {
        (n + '0' as int) as char
    } else {
        (n - 10 + 'A' as int) as char
    }
}

/// A class ID string: 32 hexadecimal digits, two for each of the 16 bytes.
pub open spec fn valid_hex_uid(s: Seq<char>) -> bool {
    &&& s.len() == 32
    &&& forall|i: int| 0 <= i < 32 ==> #[trigger] is_hex_digit(s[i])
}

/// The 16 bytes that a valid class ID string spells, most significant digit first.
pub open spec fn decoded_uid(s: Seq<char>) -> Seq<u8> {
    Seq::new(16, |i: int| (16 * hex_digit_value(s[2 * i]) + hex_digit_value(s[2 * i + 1])) as u8)
}

/// Two upper case digits for each byte.
pub open spec fn encoded_uid(b: Seq<u8>) -> Seq<char> {
    Seq::new(
        2 * b.len(),
        |i: int|
            if i % 2 == 0 {
                upper_hex_digit(b[i / 2] as int / 16)
            } else {
                upper_hex_digit(b[i / 2] as int % 16)
            },
    )
}

/// The first four bytes reversed, the next two pairs swapped, the last eight kept.
pub open spec fn rewritten_uid(b: Seq<u8>) -> Seq<u8> {
    seq![b[3], b[2], b[1], b[0], b[5], b[4], b[7], b[6]] + b.subrange(8, 16)
}

fn hex_digit(c: char) -> (r: Option<u8>)
    ensures
        r is Some <==> is_hex_digit(c),
        r matches Some(v) ==> v as int == hex_digit_value(c) && v < 16,
{
    if '0' <= c && c <= '9' {
        Some((c as u32 - '0' as u32) as u8)
    } else if 'a' <= c && c <= 'f' {
        Some((c as u32 - 'a' as u32 + 10) as u8)
    } else if 'A' <= c && c <= 'F' {
        Some((c as u32 - 'A' as u32 + 10) as u8)
    } else {
        None
    }
}

/// Parses a class ID from its 32 hexadecimal digits.
pub fn decode_hex_uid(hex_uid: &str) -> (r: Result<[u8; 16], UidError>)
    ensures
        r is Ok <==> valid_hex_uid(hex_uid@),
        r == Err::<[u8; 16], UidError>(UidError::WrongLength) <==> hex_uid@.len() != 32,
        r matches Ok(uid) ==> uid@ == decoded_uid(hex_uid@),
{
    if hex_uid.unicode_len() != 32 {
        return Err(UidError::WrongLength);
    }
    let ghost s = hex_uid@;
    let mut uid: [u8; 16] = [0u8; 16];
    let mut idx: usize = 0;
    while idx < 16
        invariant
            s == hex_uid@,
            s.len() == 32,
            idx <= 16,
            forall|j: int| 0 <= j < 2 * idx ==> #[trigger] is_hex_digit(s[j]),
            forall|j: int|
                0 <= j < idx ==> uid@[j] == (16 * hex_digit_value(s[2 * j]) + hex_digit_value(
                    s[2 * j + 1],
                )) as u8,
        decreases 16 - idx,
    {
        let high = hex_digit(hex_uid.get_char(2 * idx));
        let low = hex_digit(hex_uid.get_char(2 * idx + 1));
        match (high, low) {
            (Some(h), Some(l)) => {
                uid[idx] = h * 16 + l;
            },
            _ => {
                assert(!is_hex_digit(s[2 * idx as int]) || !is_hex_digit(s[2 * idx + 1]));
                return Err(UidError::InvalidDigit);
            },
        }
        idx = idx + 1;
    }
    assert(uid@ =~= decoded_uid(s));
    Ok(uid)
}

fn upper_hex_digit_str(n: u8) -> (r: &'static str)
    requires
        n < 16,
    ensures
        r@ == seq![upper_hex_digit(n as int)],
{
    let digits = "0123456789ABCDEF";
    proof {
        reveal_strlit("0123456789ABCDEF");
    }
    let r = digits.substring_char(n as usize, n as usize + 1);
    assert(r@ =~= seq![upper_hex_digit(n as int)]);
    r
}

/// Writes a class ID as 32 upper case hexadecimal digits.
pub fn encode_hex_uid(uid: &[u8; 16]) -> (r: String)
    ensures
        r@ == encoded_uid(uid@),
{
    let mut hex_uid = String::new();
    let mut idx: usize = 0;
    while idx < 16
        invariant
            idx <= 16,
            uid@.len() == 16,
            hex_uid@ =~= encoded_uid(uid@.subrange(0, idx as int)),
        decreases 16 - idx,
    {
        let b = uid[idx];
        hex_uid.append(upper_hex_digit_str(b / 16));
        hex_uid.append(upper_hex_digit_str(b % 16));
        assert(hex_uid@ =~= encoded_uid(uid@.subrange(0, idx + 1)));
        idx = idx + 1;
    }
    assert(uid@.subrange(0, 16) =~= uid@);
    hex_uid
}

/// Switches a class ID between the COM byte order and the other one.
pub fn rewrite_uid_byte_order(old_uid: &[u8; 16]) -> (r: [u8; 16])
    ensures
        r@ == rewritten_uid(old_uid@),
{
    let mut new_uid = *old_uid;
    new_uid[0] = old_uid[3];
    new_uid[1] = old_uid[2];
    new_uid[2] = old_uid[1];
    new_uid[3] = old_uid[0];
    new_uid[4] = old_uid[5];
    new_uid[5] = old_uid[4];
    new_uid[6] = old_uid[7];
    new_uid[7] = old_uid[6];
    assert(new_uid@ =~= rewritten_uid(old_uid@));
    new_uid
}

/// Rewriting the byte order twice gives back the class ID one started from.
pub proof fn lemma_rewrite_involution(b: Seq<u8>)
    requires
        b.len() == 16,
    ensures
        rewritten_uid(rewritten_uid(b)) == b,
{
    assert(rewritten_uid(rewritten_uid(b)) =~= b);
}

/// Decoding what was encoded gives back the same bytes.
pub proof fn lemma_decode_encode(b: Seq<u8>)
    requires
        b.len() == 16,
    ensures
        valid_hex_uid(encoded_uid(b)),
        decoded_uid(encoded_uid(b)) == b,
{
    let s = encoded_uid(b);
    assert forall|i: int| 0 <= i < 32 implies #[trigger] is_hex_digit(s[i]) by {
        let v = if i % 2 == 0 { b[i / 2] as int / 16 } else { b[i / 2] as int % 16 };
        assert(0 <= v < 16);
    }
    assert forall|i: int| 0 <= i < 16 implies #[trigger] decoded_uid(s)[i] == b[i] by {
        let hi = b[i] as int / 16;
        let lo = b[i] as int % 16;
        assert(s[2 * i] == upper_hex_digit(hi));
        assert(s[2 * i + 1] == upper_hex_digit(lo));
        assert(hex_digit_value(upper_hex_digit(hi)) == hi);
        assert(hex_digit_value(upper_hex_digit(lo)) == lo);
    }
    assert(decoded_uid(s) =~= b);
}

} // verus!
