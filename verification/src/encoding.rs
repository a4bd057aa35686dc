//! The byte encodings that OrbitBuild exchanges: UTF-8, lower-case hexadecimal and
//! unpadded base64url.

use vstd::arithmetic::div_mod::lemma_fundamental_div_mod_converse;
use vstd::prelude::*;
use vstd::utf8;

verus! {

/// The longest input, in bytes, that the functions of the hexadecimal and base64url encodings
/// take.
pub const MAX_ENCODED: usize = usize::MAX / 512;

/// The lower-case hexadecimal digit `n`.
pub open spec fn hex_digit(n: int) -> u8 {
    if n < 10 {
        (48 + n) as u8
    } else {
        (87 + n) as u8
    }
}

/// `data` in lower-case hexadecimal, two digits for each byte, the high one first.
pub open spec fn hex(data: Seq<u8>) -> Seq<u8> {
    Seq::new(
        2 * data.len(),
        |i: int|
            if i % 2 == 0 {
                hex_digit(data[i / 2] as int / 16)
            } else {
                hex_digit(data[i / 2] as int % 16)
            },
    )
}

/// The symbol of the base64url alphabet that stands for `n`.
pub open spec fn base64url_symbol(n: int) -> u8 {
    if n < 26 {
        (65 + n) as u8
    } else if n < 52 {
        (71 + n) as u8
    } else if n < 62 {
        (n - 4) as u8
    } else if n == 62 {
        45
    } else {
        95
    }
}

/// `data` in unpadded base64url: four symbols for each three bytes, then two or three symbols
/// for one or two bytes that are left, with zeroes for the missing bits.
pub open spec fn base64url(data: Seq<u8>) -> Seq<u8>
    decreases data.len(),
{
    if data.len() == 0 {
        Seq::<u8>::empty()
    } else if data.len() == 1 {
        seq![base64url_symbol(data[0] as int / 4), base64url_symbol(data[0] as int % 4 * 16)]
    } else if data.len() == 2 {
        seq![
            base64url_symbol(data[0] as int / 4),
            base64url_symbol(data[0] as int % 4 * 16 + data[1] as int / 16),
            base64url_symbol(data[1] as int % 16 * 4),
        ]
    } else {
        seq![
            base64url_symbol(data[0] as int / 4),
            base64url_symbol(data[0] as int % 4 * 16 + data[1] as int / 16),
            base64url_symbol(data[1] as int % 16 * 4 + data[2] as int / 64),
            base64url_symbol(data[2] as int % 64),
        ] + base64url(data.skip(3))
    }
}

/// The text whose characters are the ASCII codes in `codes`.
pub open spec fn ascii_text(codes: Seq<u8>) -> Seq<char> {
    codes.map_values(|b: u8| b as char)
}

/// What `String::from_utf8_lossy` makes of `bytes`.
pub uninterp spec fn utf8_lossy(bytes: Seq<u8>) -> Seq<char>;

/// `bytes` as text to be shown: the text that they encode in UTF-8, or, where they are not
/// UTF-8, what `String::from_utf8_lossy` makes of them.
pub open spec fn shown(bytes: Seq<u8>) -> Seq<char> {
    if utf8::valid_utf8(bytes) {
        utf8::decode_utf8(bytes)
    } else {
        utf8_lossy(bytes)
    }
}

/// Calls `data_encoding::HEXLOWER.encode`. Claimed: the result is the lower-case hexadecimal
/// form of the bytes.
#[verifier::external_body]
pub(crate) fn hex_encode(data: &[u8; 32]) -> (res: String)
    ensures
        res@ == ascii_text(hex(data@)),
{
    data_encoding::HEXLOWER.encode(data)
}

/// Calls `data_encoding::HEXLOWER.decode`. Claimed: it succeeds exactly on the lower-case
/// hexadecimal form of some bytes, and returns those bytes.
#[verifier::external_body]
pub(crate) fn hex_decode(text: &[u8]) -> (res: Option<Vec<u8>>)
    requires
        text@.len() <= MAX_ENCODED,
    ensures
        match res {
            Some(data) => hex(data@) == text@,
            None => forall|data: Seq<u8>| #[trigger] hex(data) != text@,
        },
{
    data_encoding::HEXLOWER.decode(text).ok()
}

/// Calls `data_encoding::BASE64URL_NOPAD.encode`. Claimed: the result is the unpadded
/// base64url form of the bytes.
#[verifier::external_body]
pub(crate) fn base64url_encode(data: &[u8]) -> (res: String)
    requires
        data@.len() <= MAX_ENCODED,
    ensures
        res@ == ascii_text(base64url(data@)),
{
    data_encoding::BASE64URL_NOPAD.encode(data)
}

/// Calls `data_encoding::BASE64URL_NOPAD.decode`. Claimed: it succeeds exactly on the unpadded
/// base64url form of some bytes (missing bits that are not zero are refused), and returns
/// those bytes.
#[verifier::external_body]
pub(crate) fn base64url_decode(text: &[u8]) -> (res: Option<Vec<u8>>)
    requires
        text@.len() <= MAX_ENCODED,
    ensures
        match res {
            Some(data) => base64url(data@) == text@,
            None => forall|data: Seq<u8>| #[trigger] base64url(data) != text@,
        },
{
    data_encoding::BASE64URL_NOPAD.decode(text).ok()
}

/// Calls `std::str::from_utf8`. Claimed: it succeeds exactly on valid UTF-8, and returns the
/// text that the bytes encode.
#[verifier::external_body]
pub(crate) fn utf8_decode(bytes: &[u8]) -> (res: Option<&str>)
    ensures
        match res {
            Some(text) => utf8::valid_utf8(bytes@) && text@ == utf8::decode_utf8(bytes@),
            None => !utf8::valid_utf8(bytes@),
        },
{
    std::str::from_utf8(bytes).ok()
}

/// Calls `String::from_utf8_lossy`. Claimed: the result depends on the bytes alone, and is the
/// text that they encode where they are valid UTF-8. How bytes that are not are replaced is
/// left unsaid.
#[verifier::external_body]
pub(crate) fn utf8_decode_lossy(bytes: &[u8]) -> (res: String)
    ensures
        res@ == utf8_lossy(bytes@),
        utf8::valid_utf8(bytes@) ==> res@ == utf8::decode_utf8(bytes@),
{
    String::from_utf8_lossy(bytes).into_owned()
}

/// No two byte sequences have the same hexadecimal form.
pub proof fn hex_is_injective(a: Seq<u8>, b: Seq<u8>)
    requires
        hex(a) == hex(b),
    ensures
        a == b,
{
    assert(hex(a).len() == 2 * a.len() && hex(b).len() == 2 * b.len());
    assert forall|i: int| 0 <= i < a.len() implies a[i] == b[i] by {
        assert(hex(a)[2 * i] == hex_digit(a[i] as int / 16));
        assert(hex(b)[2 * i] == hex_digit(b[i] as int / 16));
        assert(hex(a)[2 * i + 1] == hex_digit(a[i] as int % 16));
        assert(hex(b)[2 * i + 1] == hex_digit(b[i] as int % 16));
    }
    assert(a =~= b);
}

/// No two byte sequences have the same base64url form, and none is longer than its form.
pub proof fn base64url_is_injective(a: Seq<u8>, b: Seq<u8>)
    requires
        base64url(a) == base64url(b),
    ensures
        a == b,
        a.len() <= base64url(a).len(),
    decreases a.len(),
{
    base64url_length(a);
    base64url_length(b);
    assert(a.len() == b.len());
    let ca = base64url(a);
    let cb = base64url(b);
    if a.len() == 0 {
        assert(a =~= b);
    } else if a.len() == 1 {
        assert(ca[0] == cb[0] && ca[1] == cb[1]);
        assert(a =~= b);
    } else if a.len() == 2 {
        assert(ca[0] == cb[0] && ca[1] == cb[1] && ca[2] == cb[2]);
        assert(a =~= b);
    } else {
        assert(ca[0] == cb[0] && ca[1] == cb[1] && ca[2] == cb[2] && ca[3] == cb[3]);
        assert(a[0] == b[0] && a[1] == b[1] && a[2] == b[2]);
        assert(ca.skip(4) =~= base64url(a.skip(3)));
        assert(cb.skip(4) =~= base64url(b.skip(3)));
        base64url_is_injective(a.skip(3), b.skip(3));
        assert(a =~= a.take(3) + a.skip(3));
        assert(b =~= b.take(3) + b.skip(3));
        assert(a.take(3) =~= b.take(3));
    }
}

/// The base64url form of `n` bytes has `n + ceil(n / 3)` symbols.
proof fn base64url_length(data: Seq<u8>)
    ensures
        base64url(data).len() == data.len() + (data.len() + 2) / 3,
    decreases data.len(),
{
    if data.len() >= 3 {
        base64url_length(data.skip(3));
    }
}

/// Hexadecimal takes two digits for each byte, the high one first, out of these sixteen.
pub proof fn hexadecimal_digits(data: Seq<u8>, i: int)
    requires
        0 <= i < data.len(),
    ensures
        hex(data).len() == 2 * data.len(),
        hex(data)[2 * i] as char == "0123456789abcdef"@[data[i] as int / 16],
        hex(data)[2 * i + 1] as char == "0123456789abcdef"@[data[i] as int % 16],
{
    reveal_strlit("0123456789abcdef");
}

/// What is text is shown as it is; what is not is shown as `String::from_utf8_lossy` has it.
pub proof fn text_is_shown_as_it_is(text: Seq<char>, bytes: Seq<u8>)
    ensures
        shown(utf8::encode_utf8(text)) == text,
        !utf8::valid_utf8(bytes) ==> shown(bytes) == utf8_lossy(bytes),
{
    utf8::encode_utf8_valid_utf8(text);
    utf8::encode_utf8_decode_utf8(text);
}

/// Every ASCII code becomes one character, in order.
pub proof fn codes_are_characters(codes: Seq<u8>)
    ensures
        ascii_text(codes).len() == codes.len(),
        forall|i: int| 0 <= i < codes.len() ==> #[trigger] ascii_text(codes)[i] == codes[i] as char,
{
}

/// The alphabet of base64url: capital letters, small letters, digits, and two more symbols.
pub proof fn base64url_alphabet(n: int)
    requires
        0 <= n < 64,
    ensures
        base64url_symbol(n) as char
            == "ABCDEFGHIJKLMNOPQRSTUVWXYZabcdefghijklmnopqrstuvwxyz0123456789-_"@[n],
{
    reveal_strlit("ABCDEFGHIJKLMNOPQRSTUVWXYZabcdefghijklmnopqrstuvwxyz0123456789-_");
}

/// What three bytes become.
spec fn group_symbols(a: u8, b: u8, c: u8) -> Seq<u8> {
    seq![
        base64url_symbol(a as int / 4),
        base64url_symbol(a as int % 4 * 16 + b as int / 16),
        base64url_symbol(b as int % 16 * 4 + c as int / 64),
        base64url_symbol(c as int % 64),
    ]
}

/// Three bytes become four symbols, and what follows them becomes what it becomes alone.
proof fn lemma_base64url_of_group(a: u8, b: u8, c: u8, data: Seq<u8>)
    ensures
        base64url(seq![a, b, c]) == group_symbols(a, b, c),
        base64url(seq![a, b, c] + data) == group_symbols(a, b, c) + base64url(data),
{
    let group = seq![a, b, c];
    let both = group + data;
    assert(group.skip(3) =~= Seq::<u8>::empty());
    assert(base64url(group.skip(3)).len() == 0);
    assert(base64url(group) =~= group_symbols(a, b, c));
    assert(both.skip(3) =~= data);
    assert(both[0] == a && both[1] == b && both[2] == c);
}

/// The four groups of six bits in three bytes.
proof fn lemma_groups_of_six_bits(a: int, b: int, c: int)
    requires
        0 <= a < 256,
        0 <= b < 256,
        0 <= c < 256,
    ensures
        (65_536 * a + 256 * b + c) / 262_144 == a / 4,
        (65_536 * a + 256 * b + c) / 4_096 % 64 == a % 4 * 16 + b / 16,
        (65_536 * a + 256 * b + c) / 64 % 64 == b % 16 * 4 + c / 64,
        (65_536 * a + 256 * b + c) % 64 == c % 64,
{
    let bits = 65_536 * a + 256 * b + c;
    let high = 16 * a + b / 16;
    let low = 1_024 * a + 4 * b + c / 64;
    lemma_fundamental_div_mod_converse(bits, 262_144, a / 4, 65_536 * (a % 4) + 256 * b + c);
    lemma_fundamental_div_mod_converse(bits, 4_096, high, 256 * (b % 16) + c);
    lemma_fundamental_div_mod_converse(high, 64, a / 4, 16 * (a % 4) + b / 16);
    lemma_fundamental_div_mod_converse(bits, 64, low, c % 64);
    lemma_fundamental_div_mod_converse(low, 64, high, 4 * (b % 16) + c / 64);
}

/// Each three bytes, read as one number of twenty-four bits, become four symbols of six bits each,
/// the high ones first, and what follows them becomes what it becomes alone.
pub proof fn base64url_takes_six_bits_a_symbol(a: u8, b: u8, c: u8, data: Seq<u8>)
    ensures
        ({
            let bits = 65_536 * a + 256 * b + c;
            let group = base64url(seq![a, b, c]);
            &&& group.len() == 4
            &&& group[0] == base64url_symbol(bits / 262_144)
            &&& group[1] == base64url_symbol(bits / 4_096 % 64)
            &&& group[2] == base64url_symbol(bits / 64 % 64)
            &&& group[3] == base64url_symbol(bits % 64)
        }),
        base64url(seq![a, b, c] + data) == base64url(seq![a, b, c]) + base64url(data),
{
    lemma_base64url_of_group(a, b, c, data);
    lemma_groups_of_six_bits(a as int, b as int, c as int);
}

/// Nothing becomes nothing. One or two bytes that are left become the first two or three symbols of
/// what they become with zeroes behind them; nothing is added to fill them up.
pub proof fn base64url_of_what_is_left(a: u8, b: u8)
    ensures
        base64url(Seq::empty()).len() == 0,
        base64url(seq![a]) == base64url(seq![a, 0, 0]).take(2),
        base64url(seq![a, b]) == base64url(seq![a, b, 0]).take(3),
{
    lemma_base64url_of_group(a, 0, 0, Seq::empty());
    lemma_base64url_of_group(a, b, 0, Seq::empty());
    assert(base64url(seq![a]) =~= group_symbols(a, 0, 0).take(2));
    assert(base64url(seq![a, b]) =~= group_symbols(a, b, 0).take(3));
}

} // verus!
