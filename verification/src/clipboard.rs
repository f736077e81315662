//! The clipboard: what its raw bytes mean, and which bytes stand for an item.
use vstd::prelude::*;
use vstd::string::*;
use vstd::utf8::*;

use crate::encoding;
use crate::text;

verus! {

// ---------------------------------------------------------------------------
// UTF-16
// ---------------------------------------------------------------------------
/// The UTF-16 units of one character: itself, or a surrogate pair.
pub open spec fn utf16_of_char(c: char) -> Seq<u16> {
    let u = c as u32;
    if u < 0x10000 {
        seq![u as u16]
    } else {
        seq![
            (0xd800 + (u - 0x10000) / 0x400) as u16,
            (0xdc00 + (u - 0x10000) % 0x400) as u16,
        ]
    }
}

/// The UTF-16 units of a text.
pub open spec fn utf16_units(s: Seq<char>) -> Seq<u16>
    decreases s.len(),
{
    if s.len() == 0 {
        Seq::empty()
    } else {
        utf16_of_char(s[0]) + utf16_units(s.drop_first())
    }
}

/// The first unit of a surrogate pair.
pub open spec fn is_high_surrogate(u: u16) -> bool {
    0xd800 <= u <= 0xdbff
}

/// The second unit of a surrogate pair.
pub open spec fn is_low_surrogate(u: u16) -> bool {
    0xdc00 <= u <= 0xdfff
}

/// The character of a surrogate pair.
pub open spec fn surrogate_pair(high: u16, low: u16) -> char {
    (0x10000 + (high - 0xd800) * 0x400 + (low - 0xdc00)) as char
}

/// The text of UTF-16 units, in which a replacement character stands for every
/// surrogate without a partner.
pub open spec fn utf16_text(units: Seq<u16>) -> Seq<char>
    decreases units.len(),
{
    if units.len() == 0 {
        Seq::empty()
    } else if is_high_surrogate(units[0]) && units.len() >= 2 && is_low_surrogate(units[1]) {
        seq![surrogate_pair(units[0], units[1])] + utf16_text(units.skip(2))
    } else if is_high_surrogate(units[0]) || is_low_surrogate(units[0]) {
        seq!['\u{fffd}'] + utf16_text(units.skip(1))
    } else {
        seq![units[0] as char] + utf16_text(units.skip(1))
    }
}

/// `char::from_u32`: the character with a code point, where there is one.
pub assume_specification[ char::from_u32 ](i: u32) -> (r: Option<char>)
    ensures
        r is Some == (i <= 0xd7ff || 0xe000 <= i <= 0x10ffff),
        r matches Some(c) ==> c as u32 == i,
;

/// The UTF-16 units of a string.
pub fn encode_utf16(s: &str) -> (r: Vec<u16>)
    ensures
        r@ == utf16_units(s@),
{
    let chars: Vec<char> = text::chars_of(s);
    let mut r: Vec<u16> = Vec::new();
    let mut i: usize = 0;
    assert(s@.skip(0) =~= s@);
    assert(r@ + utf16_units(s@) =~= utf16_units(s@));
    while i < chars.len()
        invariant
            i <= chars.len(),
            chars@ == s@,
            utf16_units(s@) == r@ + utf16_units(s@.skip(i as int)),
        decreases chars.len() - i,
    {
        let u: u32 = chars[i] as u32;
        let ghost before = r@;
        let ghost rest = utf16_units(s@.skip(i + 1));
        assert(s@.skip(i as int).drop_first() =~= s@.skip(i + 1));
        assert(s@.skip(i as int)[0] == chars@[i as int]);
        if u < 0x10000 {
            r.push(u as u16);
        } else {
            r.push((0xd800 + (u - 0x10000) / 0x400) as u16);
            r.push((0xdc00 + (u - 0x10000) % 0x400) as u16);
        }
        assert(r@ =~= before + utf16_of_char(chars@[i as int]));
        assert(before + (utf16_of_char(chars@[i as int]) + rest) =~= r@ + rest);
        i += 1;
    }
    assert(utf16_units(s@.skip(chars.len() as int)) =~= Seq::<u16>::empty());
    assert(r@ + Seq::<u16>::empty() =~= r@);
    r
}

/// The string of UTF-16 units, in which a replacement character stands for every
/// surrogate without a partner.
pub fn decode_utf16(units: &Vec<u16>) -> (r: String)
    ensures
        r@ == utf16_text(units@),
{
    let mut r: String = String::new();
    let mut i: usize = 0;
    let n: usize = units.len();
    assert(units@.skip(0) =~= units@);
    assert(r@ + utf16_text(units@) =~= utf16_text(units@));
    while i < n
        invariant
            i <= n,
            n == units.len(),
            utf16_text(units@) == r@ + utf16_text(units@.skip(i as int)),
        decreases n - i,
    {
        let u: u16 = units[i];
        let ghost rest = units@.skip(i as int);
        let ghost before = r@;
        assert(rest[0] == u);
        if 0xd800 <= u && u <= 0xdbff && n - i >= 2 && 0xdc00 <= units[i + 1] && units[i + 1]
            <= 0xdfff {
            let code: u32 = 0x10000 + (u as u32 - 0xd800) * 0x400 + (units[i + 1] as u32 - 0xdc00);
            assert(rest.skip(2) =~= units@.skip(i + 2));
            match char::from_u32(code) {
                Some(c) => {
                    r.push(c);
                    proof {
                        char_u32_cast(c, code);
                    }
                    assert(c == surrogate_pair(rest[0], rest[1]));
                },
                None => {},
            }
            assert(before + (seq![surrogate_pair(rest[0], rest[1])] + utf16_text(rest.skip(2)))
                =~= r@ + utf16_text(rest.skip(2)));
            i += 2;
        } else if 0xd800 <= u && u <= 0xdfff {
            r.push('\u{fffd}');
            assert(rest.skip(1) =~= units@.skip(i + 1));
            assert(before + (seq!['\u{fffd}'] + utf16_text(rest.skip(1))) =~= r@ + utf16_text(
                rest.skip(1),
            ));
            i += 1;
        } else {
            assert(rest.skip(1) =~= units@.skip(i + 1));
            match char::from_u32(u as u32) {
                Some(c) => {
                    r.push(c);
                    proof {
                        char_u32_cast(c, u as u32);
                    }
                    assert(c == rest[0] as char);
                },
                None => {},
            }
            assert(before + (seq![rest[0] as char] + utf16_text(rest.skip(1))) =~= r@ + utf16_text(
                rest.skip(1),
            ));
            i += 1;
        }
    }
    assert(utf16_text(units@.skip(n as int)) =~= Seq::<char>::empty());
    assert(r@ + Seq::<char>::empty() =~= r@);
    r
}

// ---------------------------------------------------------------------------
// Plain text
// ---------------------------------------------------------------------------
/// The bytes of units, each with its low byte first.
pub open spec fn little_endian(units: Seq<u16>) -> Seq<u8> {
    Seq::new(
        2 * units.len(),
        |i: int|
            if i % 2 == 0 {
                (units[i / 2] % 256) as u8
            } else {
                (units[i / 2] / 256) as u8
            },
    )
}

/// The units of bytes, each with its low byte first. A last odd byte is left out.
pub open spec fn units_of(bytes: Seq<u8>) -> Seq<u16> {
    Seq::new(bytes.len() / 2, |i: int| (bytes[2 * i] + 256 * bytes[2 * i + 1]) as u16)
}

/// The units before the first that is zero.
pub open spec fn until_zero(units: Seq<u16>) -> Seq<u16>
    decreases units.len(),
{
    if units.len() == 0 || units[0] == 0 {
        Seq::empty()
    } else {
        seq![units[0]] + until_zero(units.drop_first())
    }
}

/// The characters before the first that is a NUL.
pub open spec fn until_nul(s: Seq<char>) -> Seq<char>
    decreases s.len(),
{
    if s.len() == 0 || s[0] == '\0' {
        Seq::empty()
    } else {
        seq![s[0]] + until_nul(s.drop_first())
    }
}

/// The text that the bytes of a Unicode text on the clipboard stand for.
pub open spec fn unicode_text(bytes: Seq<u8>) -> Option<Seq<char>> {
    if bytes.len() < 2 {
        None
    } else {
        Some(utf16_text(until_zero(units_of(bytes))))
    }
}

/// The bytes of a text on the clipboard: its UTF-16 units and a zero.
pub open spec fn unicode_text_bytes(s: Seq<char>) -> Seq<u8> {
    little_endian(utf16_units(s).push(0))
}

/// The text that the bytes of a Unicode text on the clipboard stand for.
pub fn read_unicode_text(bytes: &[u8]) -> (r: Option<String>)
    ensures
        text::optional_text(r) == unicode_text(bytes@),
{
    if bytes.len() < 2 {
        return None;
    }
    let n: usize = bytes.len() / 2;
    let mut units: Vec<u16> = Vec::new();
    let mut i: usize = 0;
    let ghost all = units_of(bytes@);
    assert(all.skip(0) =~= all);
    assert(units@ + until_zero(all) =~= until_zero(all));
    while i < n && (bytes[2 * i] != 0 || bytes[2 * i + 1] != 0)
        invariant
            n == bytes.len() / 2,
            bytes.len() == bytes@.len(),
            i <= n,
            all == units_of(bytes@),
            until_zero(all) == units@ + until_zero(all.skip(i as int)),
        decreases n - i,
    {
        let ghost before = units@;
        units.push(bytes[2 * i] as u16 + 256 * bytes[2 * i + 1] as u16);
        assert(all.skip(i as int)[0] == all[i as int]);
        assert(all.skip(i as int).drop_first() =~= all.skip(i + 1));
        assert(units@ =~= before.push(all[i as int]));
        assert(before + (seq![all[i as int]] + until_zero(all.skip(i + 1))) =~= units@
            + until_zero(all.skip(i + 1)));
        i += 1;
    }
    proof {
        if i < n {
            assert(all.skip(i as int)[0] == 0);
        }
        assert(until_zero(all.skip(i as int)) =~= Seq::<u16>::empty());
        assert(units@ + Seq::<u16>::empty() =~= units@);
    }
    Some(decode_utf16(&units))
}

/// The bytes of a text on the clipboard.
pub fn write_unicode_text(s: &str) -> (r: Vec<u8>)
    ensures
        r@ == unicode_text_bytes(s@),
{
    let mut units: Vec<u16> = encode_utf16(s);
    units.push(0);
    let mut r: Vec<u8> = Vec::new();
    let mut i: usize = 0;
    while i < units.len()
        invariant
            i <= units.len(),
            r@.len() == 2 * i,
            forall|k: int| 0 <= k < r@.len() ==> #[trigger] r@[k] == little_endian(units@)[k],
        decreases units.len() - i,
    {
        let u: u16 = units[i];
        r.push((u % 256) as u8);
        r.push((u / 256) as u8);
        i += 1;
    }
    assert(r@ =~= little_endian(units@));
    r
}

/// The units of bytes that begin with the bytes of `units` begin with `units`.
proof fn lemma_units_of_little_endian(units: Seq<u16>, padding: Seq<u8>)
    ensures
        units_of(little_endian(units) + padding).len() >= units.len(),
        units_of(little_endian(units) + padding).take(units.len() as int) == units,
{
    let bytes = little_endian(units) + padding;
    assert forall|i: int| 0 <= i < units.len() implies #[trigger] units_of(bytes)[i] == units[i] by {
        assert((2 * i) % 2 == 0 && (2 * i) / 2 == i);
        assert((2 * i + 1) % 2 == 1 && (2 * i + 1) / 2 == i);
        assert(bytes[2 * i] == (units[i] % 256) as u8);
        assert(bytes[2 * i + 1] == (units[i] / 256) as u8);
    }
    assert(units_of(bytes).take(units.len() as int) =~= units);
}

/// What stands behind a zero does not matter.
proof fn lemma_until_zero_prefix(units: Seq<u16>, k: int)
    requires
        0 <= k < units.len(),
        units[k] == 0,
    ensures
        until_zero(units) == until_zero(units.take(k)),
    decreases units.len(),
{
    if units[0] == 0 {
        if k > 0 {
            assert(units.take(k)[0] == 0);
        }
    } else {
        lemma_until_zero_prefix(units.drop_first(), k - 1);
        assert(units.drop_first().take(k - 1) =~= units.take(k).drop_first());
        assert(units.take(k)[0] == units[0]);
    }
}

/// Units are read as the text that they were made from.
proof fn lemma_utf16_round_trip(s: Seq<char>)
    ensures
        utf16_text(until_zero(utf16_units(s))) == until_nul(s),
    decreases s.len(),
{
    let units = utf16_units(s);
    if s.len() == 0 {
    } else {
        let c = s[0];
        let u = c as u32;
        let rest = s.drop_first();
        let tail = utf16_units(rest);
        lemma_utf16_round_trip(rest);
        char_is_scalar(c);
        char_u32_cast(c, u);
        if u < 0x10000 {
            assert(units[0] == u as u16);
            assert(units.drop_first() =~= tail);
            if c == '\0' {
            } else {
                let cut = until_zero(units);
                assert(cut == seq![u as u16] + until_zero(tail));
                assert(cut[0] == u as u16);
                assert(cut.skip(1) =~= until_zero(tail));
                assert((u as u16) as char == c);
            }
        } else {
            let high = (0xd800 + (u - 0x10000) / 0x400) as u16;
            let low = (0xdc00 + (u - 0x10000) % 0x400) as u16;
            assert(0xd800 <= high <= 0xdbff && 0xdc00 <= low <= 0xdfff);
            assert(units[0] == high && units[1] == low);
            assert(units.drop_first()[0] == low);
            assert(units.drop_first().drop_first() =~= tail);
            assert(until_zero(units.drop_first()) == seq![low] + until_zero(tail));
            let cut = until_zero(units);
            assert(cut =~= seq![high, low] + until_zero(tail));
            assert(cut.skip(2) =~= until_zero(tail));
            assert(surrogate_pair(high, low) == c);
        }
    }
}

/// Law: a text that was put on the clipboard is read as itself, up to its first NUL
/// if it has one, whatever bytes the clipboard has behind it.
pub proof fn law_unicode_text_round_trip(s: Seq<char>, padding: Seq<u8>)
    ensures
        unicode_text(unicode_text_bytes(s) + padding) == Some(until_nul(s)),
{
    let units = utf16_units(s).push(0);
    let read = units_of(unicode_text_bytes(s) + padding);
    let k = utf16_units(s).len() as int;
    lemma_units_of_little_endian(units, padding);
    assert(read.take(units.len() as int)[k] == 0);
    lemma_until_zero_prefix(read, k);
    assert(read.take(k) =~= read.take(units.len() as int).take(k));
    assert(units.take(k) =~= utf16_units(s));
    lemma_utf16_round_trip(s);
}

/// Law: a text without a NUL is read back whole.
pub proof fn law_text_without_nul_is_read_whole(s: Seq<char>)
    requires
        !s.contains('\0'),
    ensures
        until_nul(s) == s,
    decreases s.len(),
{
    if s.len() > 0 {
        assert(s[0] != '\0');
        assert forall|i: int| 0 <= i < s.drop_first().len() implies s.drop_first()[i] != '\0' by {
            assert(s.drop_first()[i] == s[i + 1]);
        }
        law_text_without_nul_is_read_whole(s.drop_first());
        assert(seq![s[0]] + s.drop_first() =~= s);
    }
}

/// Law: a character below 0x10000 is one unit, its own number; any other is a high and a
/// low surrogate, which together hold its number.
pub proof fn law_utf16_units_hold_the_characters(c: char, rest: Seq<char>)
    ensures
        (c as u32) < 0x10000 ==> utf16_units(seq![c] + rest) == seq![c as u16] + utf16_units(rest),
        (c as u32) >= 0x10000 ==> {
            let units = utf16_units(seq![c] + rest);
            &&& units.len() == 2 + utf16_units(rest).len()
            &&& units.skip(2) == utf16_units(rest)
            &&& 0xd800 <= units[0] <= 0xdbff
            &&& 0xdc00 <= units[1] <= 0xdfff
            &&& 0x10000 + (units[0] - 0xd800) * 0x400 + (units[1] - 0xdc00) == c as u32
        },
        utf16_units(Seq::empty()) == Seq::<u16>::empty(),
{
    let s = seq![c] + rest;
    assert(s.drop_first() =~= rest);
    assert(s[0] == c);
    if (c as u32) >= 0x10000 {
        let units = utf16_units(s);
        assert(units.skip(2) =~= utf16_units(rest));
    }
}

/// Law: what units are read as, one after another: a unit that is no surrogate is the
/// character of its number, a high and a low surrogate are one character, and any other
/// surrogate is a replacement character.
pub proof fn law_utf16_units_are_read_one_by_one(u: u16, rest: Seq<u16>)
    ensures
        utf16_text(Seq::empty()) == Seq::<char>::empty(),
        !(0xd800 <= u <= 0xdfff) ==> utf16_text(seq![u] + rest) == seq![u as char] + utf16_text(
            rest,
        ),
        0xdc00 <= u <= 0xdfff ==> utf16_text(seq![u] + rest) == seq!['\u{fffd}'] + utf16_text(rest),
        0xd800 <= u <= 0xdbff && (rest.len() == 0 || !(0xdc00 <= rest[0] <= 0xdfff)) ==> utf16_text(
            seq![u] + rest,
        ) == seq!['\u{fffd}'] + utf16_text(rest),
        0xd800 <= u <= 0xdbff && rest.len() > 0 && 0xdc00 <= rest[0] <= 0xdfff ==> {
            let read = utf16_text(seq![u] + rest);
            &&& read.len() > 0
            &&& read[0] as u32 == 0x10000 + (u - 0xd800) * 0x400 + (rest[0] - 0xdc00)
            &&& read.drop_first() == utf16_text(rest.drop_first())
        },
{
    let units = seq![u] + rest;
    assert(units.skip(1) =~= rest);
    assert(units[0] == u);
    if rest.len() > 0 {
        assert(units[1] == rest[0]);
        assert(units.skip(2) =~= rest.drop_first());
    }
    if 0xd800 <= u <= 0xdbff && rest.len() > 0 && 0xdc00 <= rest[0] <= 0xdfff {
        let read = utf16_text(units);
        assert(read.drop_first() =~= utf16_text(rest.drop_first()));
    }
}

/// Law: the bytes of a text on the clipboard are its units, each with its low byte first,
/// and two zeros.
pub proof fn law_text_bytes_have_the_low_byte_first(s: Seq<char>)
    ensures
        ({
            let units = utf16_units(s);
            let bytes = unicode_text_bytes(s);
            &&& bytes.len() == 2 * units.len() + 2
            &&& bytes[bytes.len() - 2] == 0
            &&& bytes[bytes.len() - 1] == 0
            &&& forall|i: int|
                0 <= i < units.len() ==> bytes[2 * i] + 256 * bytes[2 * i + 1]
                    == #[trigger] units[i]
        }),
{
    let units = utf16_units(s).push(0);
    assert forall|i: int| 0 <= i < utf16_units(s).len() implies unicode_text_bytes(s)[2 * i] + 256
        * unicode_text_bytes(s)[2 * i + 1] == #[trigger] utf16_units(s)[i] by {
        assert(units[i] == utf16_units(s)[i]);
        assert((2 * i) / 2 == i && (2 * i + 1) / 2 == i);
    }
    let n = utf16_units(s).len() as int;
    assert((2 * n) / 2 == n && (2 * n + 1) / 2 == n);
    assert(units[n] == 0);
}

/// Law: bytes of the clipboard are read as the text of their first `n` units, each with
/// its low byte first, if none of these is zero and the next is, or if there is no other.
/// Fewer than two bytes are no text.
pub proof fn law_text_is_read_up_to_the_first_zero(bytes: Seq<u8>, n: int)
    requires
        0 <= n <= bytes.len() / 2,
        forall|i: int|
            0 <= i < n ==> #[trigger] bytes[2 * i] != 0 || bytes[2 * i + 1] != 0,
        n < bytes.len() / 2 ==> bytes[2 * n] == 0 && bytes[2 * n + 1] == 0,
    ensures
        bytes.len() < 2 ==> unicode_text(bytes) is None,
        bytes.len() >= 2 ==> unicode_text(bytes) == Some(
            utf16_text(
                Seq::new(n as nat, |i: int| (bytes[2 * i] + 256 * bytes[2 * i + 1]) as u16),
            ),
        ),
{
    let units = units_of(bytes);
    lemma_until_zero_takes(units, n);
    assert(units.take(n) =~= Seq::new(
        n as nat,
        |i: int| (bytes[2 * i] + 256 * bytes[2 * i + 1]) as u16,
    ));
}

proof fn lemma_until_zero_takes(units: Seq<u16>, n: int)
    requires
        0 <= n <= units.len(),
        forall|i: int| 0 <= i < n ==> #[trigger] units[i] != 0,
        n < units.len() ==> units[n] == 0,
    ensures
        until_zero(units) == units.take(n),
    decreases n,
{
    if n > 0 {
        assert(units[0] != 0);
        let t = units.drop_first();
        assert forall|i: int| 0 <= i < n - 1 implies #[trigger] t[i] != 0 by {
            assert(t[i] == units[i + 1]);
        }
        lemma_until_zero_takes(t, n - 1);
        assert(seq![units[0]] + t.take(n - 1) =~= units.take(n));
    } else {
        assert(until_zero(units) =~= units.take(0));
    }
}

/// Law: of a text with a NUL, what stands in front of the first one is kept.
pub proof fn law_text_is_kept_up_to_the_first_nul(front: Seq<char>, rest: Seq<char>)
    requires
        !front.contains('\0'),
    ensures
        until_nul(front.push('\0') + rest) == front,
    decreases front.len(),
{
    let s = front.push('\0') + rest;
    if front.len() > 0 {
        assert(front[0] != '\0');
        let shorter = front.drop_first();
        assert forall|i: int| 0 <= i < shorter.len() implies shorter[i] != '\0' by {
            assert(shorter[i] == front[i + 1]);
        }
        law_text_is_kept_up_to_the_first_nul(shorter, rest);
        assert(s.drop_first() =~= shorter.push('\0') + rest);
        assert(seq![front[0]] + shorter =~= front);
    } else {
        assert(s[0] == '\0');
        assert(until_nul(s) =~= front);
    }
}

// ---------------------------------------------------------------------------
// HTML
// ---------------------------------------------------------------------------
/// Bytes without the zeros at their end.
pub open spec fn without_trailing_zeros(bytes: Seq<u8>) -> Seq<u8>
    decreases bytes.len(),
{
    if bytes.len() > 0 && bytes.last() == 0 {
        without_trailing_zeros(bytes.drop_last())
    } else {
        bytes
    }
}

/// A text without the NULs at its end.
pub open spec fn without_trailing_nuls(s: Seq<char>) -> Seq<char>
    decreases s.len(),
{
    if s.len() > 0 && s.last() == '\0' {
        without_trailing_nuls(s.drop_last())
    } else {
        s
    }
}

/// The text that the bytes of HTML on the clipboard stand for, if they are UTF-8.
pub open spec fn html_text(bytes: Seq<u8>) -> Option<Seq<char>> {
    let kept = without_trailing_zeros(bytes);
    if valid_utf8(kept) {
        Some(decode_utf8(kept))
    } else {
        None
    }
}

/// `String::from_utf8`: the text of bytes that are UTF-8, and nothing for others.
#[verifier::external_body]
fn utf8_text(bytes: Vec<u8>) -> (r: Option<String>)
    ensures
        r is Some == valid_utf8(bytes@),
        r matches Some(s) ==> s@ == decode_utf8(bytes@),
{
    String::from_utf8(bytes).ok()
}

/// The text that the bytes of HTML on the clipboard stand for.
pub fn read_html_text(bytes: Vec<u8>) -> (r: Option<String>)
    ensures
        text::optional_text(r) == html_text(bytes@),
{
    let mut kept: Vec<u8> = bytes;
    while kept.len() > 0 && kept[kept.len() - 1] == 0
        invariant
            without_trailing_zeros(kept@) == without_trailing_zeros(bytes@),
        decreases kept.len(),
    {
        assert(kept@.subrange(0, kept@.len() - 1) =~= kept@.drop_last());
        kept.pop();
    }
    utf8_text(kept)
}

/// The bytes of HTML on the clipboard.
pub fn write_html_text(s: &str) -> (r: Vec<u8>)
    ensures
        r@ == encode_utf8(s@),
{
    s.as_bytes_vec()
}

proof fn lemma_zeros_are_dropped(bytes: Seq<u8>, zeros: Seq<u8>)
    requires
        forall|i: int| 0 <= i < zeros.len() ==> #[trigger] zeros[i] == 0,
    ensures
        without_trailing_zeros(bytes + zeros) == without_trailing_zeros(bytes),
    decreases zeros.len(),
{
    if zeros.len() == 0 {
        assert(bytes + zeros =~= bytes);
    } else {
        let fewer = zeros.drop_last();
        assert(zeros[zeros.len() - 1] == 0);
        assert((bytes + zeros).last() == 0);
        assert((bytes + zeros).drop_last() =~= bytes + fewer);
        lemma_zeros_are_dropped(bytes, fewer);
    }
}

proof fn lemma_encode_utf8_push(s: Seq<char>, c: char)
    ensures
        encode_utf8(s.push(c)) == encode_utf8(s) + encode_scalar(c as u32),
    decreases s.len(),
{
    if s.len() == 0 {
        assert(s.push(c).drop_first() =~= Seq::<char>::empty());
        assert(encode_scalar(c as u32) + encode_utf8(Seq::<char>::empty()) =~= encode_utf8(s)
            + encode_scalar(c as u32));
    } else {
        lemma_encode_utf8_push(s.drop_first(), c);
        assert(s.push(c).drop_first() =~= s.drop_first().push(c));
        assert(encode_scalar(s[0] as u32) + (encode_utf8(s.drop_first()) + encode_scalar(c as u32))
            =~= encode_utf8(s) + encode_scalar(c as u32));
    }
}

/// The last byte of a character is zero for the NUL alone.
proof fn lemma_last_byte(c: char)
    ensures
        encode_scalar(c as u32).len() > 0,
        (encode_scalar(c as u32).last() == 0) == (c == '\0'),
        c == '\0' ==> encode_scalar(c as u32) == seq![0u8],
{
    let u = c as u32;
    char_is_scalar(c);
    char_u32_cast(c, u);
    if has_width_1_encoding(u) {
        assert((u & 0x7f) as u8 == u) by (bit_vector)
            requires
                0 <= u <= 0x7f,
        ;
    } else {
        assert((0x80u8 | (u & 0x3f) as u8) != 0) by (bit_vector);
    }
}

proof fn lemma_zeros_are_nuls(s: Seq<char>)
    ensures
        without_trailing_zeros(encode_utf8(s)) == encode_utf8(without_trailing_nuls(s)),
    decreases s.len(),
{
    if s.len() > 0 {
        let shorter = s.drop_last();
        let c = s.last();
        assert(shorter.push(c) =~= s);
        lemma_encode_utf8_push(shorter, c);
        lemma_last_byte(c);
        let bytes = encode_utf8(s);
        assert(bytes.last() == encode_scalar(c as u32).last());
        if c == '\0' {
            assert(bytes.drop_last() =~= encode_utf8(shorter));
            lemma_zeros_are_nuls(shorter);
        }
    }
}

/// Law: HTML that was put on the clipboard is read as itself, without NULs at its
/// end, however many zeros the clipboard has behind it.
pub proof fn law_html_round_trip(s: Seq<char>, zeros: Seq<u8>)
    requires
        forall|i: int| 0 <= i < zeros.len() ==> #[trigger] zeros[i] == 0,
    ensures
        html_text(encode_utf8(s) + zeros) == Some(without_trailing_nuls(s)),
{
    lemma_zeros_are_dropped(encode_utf8(s), zeros);
    lemma_zeros_are_nuls(s);
    encode_utf8_valid_utf8(without_trailing_nuls(s));
    encode_utf8_decode_utf8(without_trailing_nuls(s));
}

/// Law: HTML is read without the zeros at the end of its bytes and with all others; bytes
/// that are not UTF-8 are no HTML.
pub proof fn law_html_is_read_without_zeros_at_its_end(kept: Seq<u8>, zeros: Seq<u8>)
    requires
        kept.len() > 0 ==> kept.last() != 0,
        forall|i: int| 0 <= i < zeros.len() ==> #[trigger] zeros[i] == 0,
    ensures
        without_trailing_zeros(kept + zeros) == kept,
        valid_utf8(kept) ==> html_text(kept + zeros) == Some(decode_utf8(kept)),
        !valid_utf8(kept) ==> html_text(kept + zeros) is None,
    decreases zeros.len(),
{
    let all = kept + zeros;
    if zeros.len() > 0 {
        let fewer = zeros.drop_last();
        assert(all.last() == zeros[zeros.len() - 1]);
        assert(all.drop_last() =~= kept + fewer);
        assert forall|i: int| 0 <= i < fewer.len() implies #[trigger] fewer[i] == 0 by {
            assert(zeros[i] == 0);
        }
        law_html_is_read_without_zeros_at_its_end(kept, fewer);
    } else {
        assert(all =~= kept);
    }
}

/// Law: a text loses the NULs at its end and nothing else.
pub proof fn law_only_nuls_at_the_end_are_lost(kept: Seq<char>, nuls: Seq<char>)
    requires
        kept.len() > 0 ==> kept.last() != '\0',
        forall|i: int| 0 <= i < nuls.len() ==> #[trigger] nuls[i] == '\0',
    ensures
        without_trailing_nuls(kept + nuls) == kept,
    decreases nuls.len(),
{
    let all = kept + nuls;
    if nuls.len() > 0 {
        let fewer = nuls.drop_last();
        assert(all.last() == nuls[nuls.len() - 1]);
        assert(all.drop_last() =~= kept + fewer);
        assert forall|i: int| 0 <= i < fewer.len() implies #[trigger] fewer[i] == '\0' by {
            assert(nuls[i] == '\0');
        }
        law_only_nuls_at_the_end_are_lost(kept, fewer);
    } else {
        assert(all =~= kept);
    }
}

// ---------------------------------------------------------------------------
// Images
// ---------------------------------------------------------------------------
/// The pixels of an image, row by row from the top left, each as red, green, blue
/// and opacity.
pub struct RgbaPixels {
    pub width: u32,
    pub height: u32,
    pub pixels: Vec<[u8; 4]>,
}

/// The contents of [`RgbaPixels`].
pub struct RgbaView {
    pub width: u32,
    pub height: u32,
    pub pixels: Seq<[u8; 4]>,
}

impl View for RgbaPixels {
    type V = RgbaView;

    open spec fn view(&self) -> RgbaView {
        RgbaView { width: self.width, height: self.height, pixels: self.pixels@ }
    }
}

/// The contents of a decoded image, or the wording of the error.
pub open spec fn decoded_image(r: Result<RgbaPixels, String>) -> Result<RgbaView, Seq<char>> {
    match r {
        Ok(image) => Ok(image@),
        Err(error) => Err(error@),
    }
}

/// What `image::load_from_memory` and `DynamicImage::to_rgba8` make of the bytes of
/// a file: its pixels, or the wording of the error.
pub uninterp spec fn image_pixels(bytes: Seq<u8>) -> Result<RgbaView, Seq<char>>;

/// `image::load_from_memory`, `DynamicImage::to_rgba8` and `ImageBuffer::pixels`: the
/// pixels of an image file, as many as its width and height say, or the wording of
/// the error.
#[verifier::external_body]
fn decode_image(bytes: &[u8]) -> (r: Result<RgbaPixels, String>)
    ensures
        decoded_image(r) == image_pixels(bytes@),
        r matches Ok(image) ==> image.pixels@.len() == image.width * image.height,
{
    image::load_from_memory(bytes).map_err(|error| error.to_string()).map(|image| {
        let image = image.to_rgba8();
        RgbaPixels {
            width: image.width(),
            height: image.height(),
            pixels: image.pixels().map(|pixel| pixel.0).collect(),
        }
    })
}

/// A number of thirty-two bits with its low byte first.
pub open spec fn le32(n: int) -> Seq<u8> {
    seq![
        (n % 256) as u8,
        (n / 256 % 256) as u8,
        (n / 65536 % 256) as u8,
        (n / 16777216 % 256) as u8,
    ]
}

/// A number of sixteen bits with its low byte first.
pub open spec fn le16(n: int) -> Seq<u8> {
    seq![(n % 256) as u8, (n / 256 % 256) as u8]
}

/// The header of a bitmap on the clipboard: its own size, the width, the height as
/// a negative number, which says that the first row is the top one, one plane,
/// thirty-two bits to a pixel, no compression, and the size of the pixels. Numbers
/// wrap at thirty-two bits.
pub open spec fn dib_header(width: u32, height: u32) -> Seq<u8> {
    le32(40) + le32(width as int) + le32((0x1_0000_0000 - height) % 0x1_0000_0000) + le16(1)
        + le16(32) + le32(0) + le32((width * height * 4) % 0x1_0000_0000) + le32(0) + le32(0)
        + le32(0) + le32(0)
}

/// Pixels as blue, green, red and opacity.
pub open spec fn bgra_bytes(pixels: Seq<[u8; 4]>) -> Seq<u8>
    decreases pixels.len(),
{
    if pixels.len() == 0 {
        Seq::empty()
    } else {
        let p = pixels.last()@;
        bgra_bytes(pixels.drop_last()).push(p[2]).push(p[1]).push(p[0]).push(p[3])
    }
}

/// The bitmap of an image on the clipboard, or what is said of it.
pub open spec fn cf_dib(image: RgbaView) -> Result<Seq<u8>, Seq<char>> {
    if image.width == 0 || image.height == 0 {
        Err("Image is empty."@)
    } else {
        Ok(dib_header(image.width, image.height) + bgra_bytes(image.pixels))
    }
}

/// The bitmap of an image file on the clipboard, or what is said of it.
pub open spec fn png_dib(image: Result<RgbaView, Seq<char>>) -> Result<Seq<u8>, Seq<char>> {
    match image {
        Ok(pixels) => cf_dib(pixels),
        Err(error) => Err("Could not decode image/png for CF_DIB: "@ + error),
    }
}

fn push_le32(target: &mut Vec<u8>, n: u32)
    ensures
        final(target)@ == old(target)@ + le32(n as int),
{
    let ghost before = target@;
    target.push((n % 256) as u8);
    target.push((n / 256 % 256) as u8);
    target.push((n / 65536 % 256) as u8);
    target.push((n / 16777216 % 256) as u8);
    assert(target@ =~= before + le32(n as int));
}

fn push_le16(target: &mut Vec<u8>, n: u16)
    ensures
        final(target)@ == old(target)@ + le16(n as int),
{
    let ghost before = target@;
    target.push((n % 256) as u8);
    target.push((n / 256 % 256) as u8);
    assert(target@ =~= before + le16(n as int));
}

/// The size of the pixels in bytes, in thirty-two bits.
fn pixel_bytes(width: u32, height: u32) -> (r: u32)
    ensures
        r == (width * height * 4) % 0x1_0000_0000,
{
    let area: u64 = {
        assert(width * height <= 0xffff_ffff * 0xffff_ffff) by (nonlinear_arith)
            requires
                width <= 0xffff_ffff,
                height <= 0xffff_ffff,
        ;
        width as u64 * height as u64
    };
    ((area as u128 * 4) % 0x1_0000_0000) as u32
}

/// The bitmap of decoded pixels.
pub fn pixels_to_cf_dib(image: &RgbaPixels) -> (r: Result<Vec<u8>, String>)
    ensures
        encoding::decoded_view(r) == cf_dib(image@),
{
    if image.width == 0 || image.height == 0 {
        return Err("Image is empty.".to_owned());
    }
    let mut dib: Vec<u8> = Vec::new();
    push_le32(&mut dib, 40);
    push_le32(&mut dib, image.width);
    push_le32(&mut dib, 0u32.wrapping_sub(image.height));
    push_le16(&mut dib, 1);
    push_le16(&mut dib, 32);
    push_le32(&mut dib, 0);
    push_le32(&mut dib, pixel_bytes(image.width, image.height));
    push_le32(&mut dib, 0);
    push_le32(&mut dib, 0);
    push_le32(&mut dib, 0);
    push_le32(&mut dib, 0);
    let ghost header = dib_header(image.width, image.height);
    assert(dib@ =~= header);
    let mut i: usize = 0;
    assert(image.pixels@.take(0) =~= Seq::<[u8; 4]>::empty());
    assert(header + bgra_bytes(image.pixels@.take(0)) =~= header);
    while i < image.pixels.len()
        invariant
            i <= image.pixels.len(),
            dib@ == header + bgra_bytes(image.pixels@.take(i as int)),
        decreases image.pixels.len() - i,
    {
        let p: [u8; 4] = image.pixels[i];
        let ghost before = image.pixels@.take(i as int);
        assert(image.pixels@.take(i + 1).drop_last() =~= before);
        assert(image.pixels@.take(i + 1).last() == p);
        dib.push(p[2]);
        dib.push(p[1]);
        dib.push(p[0]);
        dib.push(p[3]);
        assert(dib@ =~= header + bgra_bytes(before).push(p@[2]).push(p@[1]).push(p@[0]).push(
            p@[3],
        ));
        i += 1;
    }
    assert(image.pixels@.take(image.pixels.len() as int) =~= image.pixels@);
    Ok(dib)
}

/// The bitmap of an image file that was decoded, or not.
pub fn decoded_to_cf_dib(image: Result<RgbaPixels, String>) -> (r: Result<Vec<u8>, String>)
    ensures
        encoding::decoded_view(r) == png_dib(decoded_image(image)),
{
    match image {
        Ok(pixels) => pixels_to_cf_dib(&pixels),
        Err(error) => Err(
            text::concat2("Could not decode image/png for CF_DIB: ", error.as_str()),
        ),
    }
}

/// The bitmap of an image file on the clipboard.
pub fn png_bytes_to_cf_dib(bytes: &[u8]) -> (r: Result<Vec<u8>, String>)
    ensures
        encoding::decoded_view(r) == png_dib(image_pixels(bytes@)),
        image_pixels(bytes@) matches Ok(image) ==> image.pixels.len() == image.width * image.height,
{
    decoded_to_cf_dib(decode_image(bytes))
}

/// Every pixel takes four bytes.
proof fn lemma_bgra_len(pixels: Seq<[u8; 4]>)
    ensures
        bgra_bytes(pixels).len() == 4 * pixels.len(),
    decreases pixels.len(),
{
    if pixels.len() > 0 {
        lemma_bgra_len(pixels.drop_last());
    }
}

/// A number that was put at a place is read there.
proof fn lemma_le32_is_read_back(bytes: Seq<u8>, at: int, n: int)
    requires
        0 <= n < 0x1_0000_0000,
        0 <= at,
        at + 4 <= bytes.len(),
        bytes.subrange(at, at + 4) == le32(n),
    ensures
        bytes[at] + 256 * bytes[at + 1] + 65536 * bytes[at + 2] + 16777216 * bytes[at + 3] == n,
{
    let part = bytes.subrange(at, at + 4);
    assert(part[0] == bytes[at] && part[1] == bytes[at + 1]);
    assert(part[2] == bytes[at + 2] && part[3] == bytes[at + 3]);
    assert(part[0] == n % 256 && part[1] == n / 256 % 256);
    assert(part[2] == n / 65536 % 256 && part[3] == n / 16777216 % 256);
}

/// Where the numbers of a header stand.
proof fn lemma_dib_header_parts(width: u32, height: u32)
    requires
        height > 0,
    ensures
        ({
            let d = dib_header(width, height);
            &&& d.len() == 40
            &&& d.subrange(0, 4) == le32(40)
            &&& d.subrange(4, 8) == le32(width as int)
            &&& d.subrange(8, 12) == le32(0x1_0000_0000 - height)
            &&& d.subrange(12, 14) == le16(1)
            &&& d.subrange(14, 16) == le16(32)
            &&& d.subrange(16, 20) == le32(0)
            &&& d.subrange(20, 24) == le32((width * height * 4) % 0x1_0000_0000)
            &&& d.subrange(24, 28) == le32(0)
            &&& d.subrange(28, 32) == le32(0)
            &&& d.subrange(32, 36) == le32(0)
            &&& d.subrange(36, 40) == le32(0)
        }),
{
    let d = dib_header(width, height);
    let minus = (0x1_0000_0000 - height) % 0x1_0000_0000;
    assert(minus == 0x1_0000_0000 - height);
    let size = (width * height * 4) % 0x1_0000_0000;
    assert(d.len() == 40);
    assert(d.subrange(0, 4) =~= le32(40));
    assert(d.subrange(4, 8) =~= le32(width as int));
    assert(d.subrange(8, 12) =~= le32(minus));
    assert(d.subrange(12, 14) =~= le16(1));
    assert(d.subrange(14, 16) =~= le16(32));
    assert(d.subrange(16, 20) =~= le32(0));
    assert(d.subrange(20, 24) =~= le32(size));
    assert(d.subrange(24, 28) =~= le32(0));
    assert(d.subrange(28, 32) =~= le32(0));
    assert(d.subrange(32, 36) =~= le32(0));
    assert(d.subrange(36, 40) =~= le32(0));
}

/// Law: the header of a bitmap is read back as the image: at byte 4 the width, at byte 8
/// the height below zero, which is what is missing to the end of thirty-two bits, and at
/// byte 20 the size of the pixels, in thirty-two bits. The rest says that the header has
/// forty bytes, and that the image has one plane of thirty-two bits to a pixel and is not
/// compressed.
pub proof fn law_dib_header_is_read_back(image: RgbaView)
    requires
        image.width > 0,
        image.height > 0,
    ensures
        cf_dib(image) matches Ok(d) && {
            &&& d.len() >= 40
            &&& d[0] + 256 * d[1] + 65536 * d[2] + 16777216 * d[3] == 40
            &&& d[4] + 256 * d[5] + 65536 * d[6] + 16777216 * d[7] == image.width
            &&& d[8] + 256 * d[9] + 65536 * d[10] + 16777216 * d[11] == 0x1_0000_0000 - image.height
            &&& d[12] + 256 * d[13] == 1
            &&& d[14] + 256 * d[15] == 32
            &&& d[16] + 256 * d[17] + 65536 * d[18] + 16777216 * d[19] == 0
            &&& d[20] + 256 * d[21] + 65536 * d[22] + 16777216 * d[23] == (4 * image.width
                * image.height) % 0x1_0000_0000
            &&& forall|i: int| 24 <= i < 40 ==> #[trigger] d[i] == 0
        },
{
    let w = image.width;
    let h = image.height;
    let header = dib_header(w, h);
    let d = cf_dib(image)->Ok_0;
    let size = (w * h * 4) % 0x1_0000_0000;
    lemma_dib_header_parts(w, h);
    assert(forall|i: int| 0 <= i < 40 ==> #[trigger] d[i] == header[i]);
    lemma_le32_is_read_back(header, 0, 40);
    lemma_le32_is_read_back(header, 4, w as int);
    lemma_le32_is_read_back(header, 8, 0x1_0000_0000 - h);
    lemma_le32_is_read_back(header, 16, 0);
    lemma_le32_is_read_back(header, 20, size);
    assert(4 * w * h == w * h * 4) by (nonlinear_arith);
    assert(header.subrange(12, 14)[0] == header[12] && header.subrange(12, 14)[1] == header[13]);
    assert(header.subrange(14, 16)[0] == header[14] && header.subrange(14, 16)[1] == header[15]);
    assert forall|i: int| 24 <= i < 40 implies #[trigger] d[i] == 0 by {
        let part = if i < 28 {
            24int
        } else if i < 32 {
            28
        } else if i < 36 {
            32
        } else {
            36
        };
        assert(header.subrange(part, part + 4)[i - part] == header[i]);
        assert(le32(0)[i - part] == 0);
    }
}

/// Law: behind the header stand the pixels in their order, each as blue, green, red and
/// opacity.
pub proof fn law_dib_holds_every_pixel(image: RgbaView, i: int)
    requires
        image.width > 0,
        image.height > 0,
        0 <= i < image.pixels.len(),
    ensures
        cf_dib(image) matches Ok(d) && {
            &&& d.len() == 40 + 4 * image.pixels.len()
            &&& d[40 + 4 * i] == image.pixels[i]@[2]
            &&& d[41 + 4 * i] == image.pixels[i]@[1]
            &&& d[42 + 4 * i] == image.pixels[i]@[0]
            &&& d[43 + 4 * i] == image.pixels[i]@[3]
        },
{
    lemma_bgra_len(image.pixels);
    lemma_bgra_at(image.pixels, i);
    let d = cf_dib(image)->Ok_0;
    assert(dib_header(image.width, image.height).len() == 40);
    assert(forall|k: int|
        0 <= k < bgra_bytes(image.pixels).len() ==> #[trigger] d[40 + k] == bgra_bytes(
            image.pixels,
        )[k]);
}

proof fn lemma_bgra_at(pixels: Seq<[u8; 4]>, i: int)
    requires
        0 <= i < pixels.len(),
    ensures
        bgra_bytes(pixels).len() == 4 * pixels.len(),
        bgra_bytes(pixels)[4 * i] == pixels[i]@[2],
        bgra_bytes(pixels)[4 * i + 1] == pixels[i]@[1],
        bgra_bytes(pixels)[4 * i + 2] == pixels[i]@[0],
        bgra_bytes(pixels)[4 * i + 3] == pixels[i]@[3],
    decreases pixels.len(),
{
    lemma_bgra_len(pixels);
    lemma_bgra_len(pixels.drop_last());
    if i < pixels.len() - 1 {
        lemma_bgra_at(pixels.drop_last(), i);
    }
}

/// Law: there is a bitmap exactly if the image has a pixel.
pub proof fn law_empty_images_have_no_bitmap(image: RgbaView)
    ensures
        cf_dib(image) is Err <==> image.width == 0 || image.height == 0,
{
}

/// Law: a bitmap has a header of forty bytes and four bytes for every pixel.
pub proof fn law_dib_length(image: RgbaView)
    requires
        image.pixels.len() == image.width * image.height,
    ensures
        cf_dib(image) matches Ok(dib) ==> dib.len() == 40 + 4 * (image.width * image.height),
{
    lemma_bgra_len(image.pixels);
}

/// Law: an image file that could not be decoded has no bitmap, and the reason is told;
/// one that could be decoded has the bitmap of its pixels.
pub proof fn law_bitmap_of_an_image_file(image: RgbaView, error: Seq<char>)
    ensures
        png_dib(Ok(image)) == cf_dib(image),
        png_dib(Err(error)) == Err::<Seq<u8>, Seq<char>>(
            "Could not decode image/png for CF_DIB: "@ + error,
        ),
        image.width == 0 || image.height == 0 ==> cf_dib(image) == Err::<Seq<u8>, Seq<char>>(
            "Image is empty."@,
        ),
{
}

/// Law: whoever asks for the bitmap of an image that has a pixel gets one whose header is
/// read back as the image and whose pixels are those of the image; one without a pixel has
/// none.
pub proof fn law_made_bitmaps_are_read_back(image: &RgbaPixels, r: Result<Vec<u8>, String>)
    requires
        call_ensures(pixels_to_cf_dib, (image,), r),
    ensures
        r is Err <==> image.width == 0 || image.height == 0,
        r matches Ok(dib) ==> {
            let d = dib@;
            &&& d.len() == 40 + 4 * image.pixels@.len()
            &&& d[4] + 256 * d[5] + 65536 * d[6] + 16777216 * d[7] == image.width
            &&& d[8] + 256 * d[9] + 65536 * d[10] + 16777216 * d[11] == 0x1_0000_0000 - image.height
            &&& d[20] + 256 * d[21] + 65536 * d[22] + 16777216 * d[23] == (4 * image.width
                * image.height) % 0x1_0000_0000
            &&& forall|i: int|
                0 <= i < image.pixels@.len() ==> {
                    &&& d[40 + 4 * i] == (#[trigger] image.pixels@[i])@[2]
                    &&& d[41 + 4 * i] == image.pixels@[i]@[1]
                    &&& d[42 + 4 * i] == image.pixels@[i]@[0]
                    &&& d[43 + 4 * i] == image.pixels@[i]@[3]
                }
        },
{
    if image.width > 0 && image.height > 0 {
        law_dib_header_is_read_back(image@);
        lemma_bgra_len(image.pixels@);
        assert forall|i: int| 0 <= i < image.pixels@.len() implies {
            &&& r->Ok_0@[40 + 4 * i] == (#[trigger] image.pixels@[i])@[2]
            &&& r->Ok_0@[41 + 4 * i] == image.pixels@[i]@[1]
            &&& r->Ok_0@[42 + 4 * i] == image.pixels@[i]@[0]
            &&& r->Ok_0@[43 + 4 * i] == image.pixels@[i]@[3]
        } by {
            law_dib_holds_every_pixel(image@, i);
        }
    }
}

} // verus!
