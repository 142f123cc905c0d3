//! Copying with OSC 52, the escape that asks the terminal itself to set the
//! clipboard. It carries its payload in padded base64.

use crate::text::concat;
use vstd::prelude::*;
use vstd::utf8::encode_utf8;

verus! {

/// The base64 digit of a value below 64.
pub open spec fn base64_digit(v: int) -> char {
    if v < 26 {
        (65 + v) as char
    } else if v < 52 {
        (71 + v) as char
    } else if v < 62 {
        (v - 4) as char
    } else if v == 62 {
        '+'
    } else {
        '/'
    }
}

/// The value of a base64 digit.
pub open spec fn base64_value(c: char) -> int {
    if 'A' <= c <= 'Z' {
        c as int - 65
    } else if 'a' <= c <= 'z' {
        c as int - 71
    } else if '0' <= c <= '9' {
        c as int + 4
    } else if c == '+' {
        62
    } else {
        63
    }
}

/// The number that up to three bytes spell, the missing ones zero.
pub open spec fn base64_group(data: Seq<u8>) -> int {
    data[0] * 0x1_0000 + (if data.len() > 1 {
        data[1] as int
    } else {
        0
    }) * 0x100 + (if data.len() > 2 {
        data[2] as int
    } else {
        0
    })
}

/// The four characters of the first three bytes: a tail of one or two bytes is
/// two or three digits, padded to four.
pub open spec fn base64_quad(data: Seq<u8>) -> Seq<char> {
    let n = base64_group(data);
    seq![
        base64_digit(n / 0x4_0000),
        base64_digit(n / 0x1000 % 64),
        if data.len() > 1 {
            base64_digit(n / 64 % 64)
        } else {
            '='
        },
        if data.len() > 2 {
            base64_digit(n % 64)
        } else {
            '='
        },
    ]
}

/// Padded base64: three bytes at a time.
pub open spec fn base64_text(data: Seq<u8>) -> Seq<char>
    decreases data.len(),
{
    if data.len() == 0 {
        Seq::empty()
    } else if data.len() <= 3 {
        base64_quad(data)
    } else {
        base64_quad(data) + base64_text(data.skip(3))
    }
}

/// The bytes that padded base64 spells: each four digits are three bytes, one
/// less for every `=`.
pub open spec fn base64_decoded(text: Seq<char>) -> Seq<u8>
    decreases text.len(),
{
    if text.len() < 4 {
        Seq::empty()
    } else {
        let n = quad_value(text);
        let all = seq![(n / 0x1_0000) as u8, (n / 0x100 % 0x100) as u8, (n % 0x100) as u8];
        let some = all.take(
            if text[2] == '=' {
                1
            } else if text[3] == '=' {
                2
            } else {
                3
            },
        );
        some + base64_decoded(text.skip(4))
    }
}

/// A digit is not the padding and spells its own value.
proof fn digit_spells_its_value(v: int)
    requires
        0 <= v < 64,
    ensures
        base64_value(base64_digit(v)) == v,
        base64_digit(v) != '=',
        base64_digit(v) != '\n',
{
}

/// Sextets put together again are the group they came from.
proof fn sextets_rejoin(n: int)
    requires
        0 <= n < 0x100_0000,
    ensures
        (n / 0x4_0000) * 0x4_0000 + (n / 0x1000 % 64) * 0x1000 + (n / 64 % 64) * 64 + n % 64 == n,
        0 <= n / 0x4_0000 < 64,
{
}

/// Three bytes put together are taken apart again.
proof fn bytes_come_apart(b1: int, b2: int, b3: int)
    requires
        0 <= b1 < 0x100,
        0 <= b2 < 0x100,
        0 <= b3 < 0x100,
    ensures
        ({
            let n = b1 * 0x1_0000 + b2 * 0x100 + b3;
            &&& 0 <= n < 0x100_0000
            &&& n / 0x1_0000 == b1
            &&& n / 0x100 % 0x100 == b2
            &&& n % 0x100 == b3
            &&& b3 == 0 ==> n % 64 == 0
            &&& b3 == 0 && b2 == 0 ==> n / 64 % 64 == 0
        }),
{
}

/// The number that four base64 characters spell, the padding zero.
pub open spec fn quad_value(text: Seq<char>) -> int {
    base64_value(text[0]) * 0x4_0000 + base64_value(text[1]) * 0x1000 + (if text[2] == '=' {
        0
    } else {
        base64_value(text[2])
    }) * 64 + (if text[3] == '=' {
        0
    } else {
        base64_value(text[3])
    })
}

/// The characters of a group spell its number.
proof fn quad_spells_its_group(data: Seq<u8>, tail: Seq<char>)
    requires
        data.len() > 0,
    ensures
        quad_value(base64_quad(data) + tail) == base64_group(data),
        0 <= base64_group(data) < 0x100_0000,
        base64_quad(data)[2] == '=' <==> data.len() == 1,
        base64_quad(data)[3] == '=' <==> data.len() <= 2,
{
    let n = base64_group(data);
    bytes_come_apart(
        data[0] as int,
        if data.len() > 1 {
            data[1] as int
        } else {
            0
        },
        if data.len() > 2 {
            data[2] as int
        } else {
            0
        },
    );
    sextets_rejoin(n);
    digit_spells_its_value(n / 0x4_0000);
    digit_spells_its_value(n / 0x1000 % 64);
    digit_spells_its_value(n / 64 % 64);
    digit_spells_its_value(n % 64);
}

/// Decoding gives back what was encoded.
pub proof fn base64_round_trips(data: Seq<u8>)
    ensures
        base64_decoded(base64_text(data)) == data,
    decreases data.len(),
{
    if data.len() > 0 {
        let n = base64_group(data);
        let quad = base64_quad(data);
        let rest = if data.len() <= 3 {
            Seq::empty()
        } else {
            data.skip(3)
        };
        let tail = base64_text(rest);
        base64_round_trips(rest);
        quad_spells_its_group(data, tail);
        let text = quad + tail;
        assert(base64_text(data) =~= text);
        assert(text.skip(4) =~= tail);
        bytes_come_apart(
            data[0] as int,
            if data.len() > 1 {
                data[1] as int
            } else {
                0
            },
            if data.len() > 2 {
                data[2] as int
            } else {
                0
            },
        );
        let all = seq![(n / 0x1_0000) as u8, (n / 0x100 % 0x100) as u8, (n % 0x100) as u8];
        let k: int = if data.len() == 1 {
            1
        } else if data.len() == 2 {
            2
        } else {
            3
        };
        assert(base64_decoded(text) == all.take(k) + base64_decoded(tail));
        assert(all.take(k) =~= data.take(k));
        assert(data.take(k) + rest =~= data);
    }
}

/// Different bytes are encoded differently.
pub proof fn base64_is_injective(a: Seq<u8>, b: Seq<u8>)
    requires
        base64_text(a) == base64_text(b),
    ensures
        a == b,
{
    base64_round_trips(a);
    base64_round_trips(b);
}

/// Base64 takes four characters for every three bytes, begun ones too, and holds
/// no line break.
pub proof fn base64_shape(data: Seq<u8>)
    ensures
        base64_text(data).len() == (data.len() + 2) / 3 * 4,
        forall|i: int| 0 <= i < base64_text(data).len() ==> #[trigger] base64_text(data)[i] != '\n',
    decreases data.len(),
{
    if data.len() > 0 {
        let n = base64_group(data);
        sextets_rejoin(n);
        digit_spells_its_value(n / 0x4_0000);
        digit_spells_its_value(n / 0x1000 % 64);
        digit_spells_its_value(n / 64 % 64);
        digit_spells_its_value(n % 64);
        if data.len() > 3 {
            base64_shape(data.skip(3));
        }
    }
}

/// The base64 digit of a value below 64.
fn digit(v: u32) -> (c: char)
    requires
        v < 64,
    ensures
        c == base64_digit(v as int),
{
    if v < 26 {
        (65 + v as u8) as char
    } else if v < 52 {
        (71 + v as u8) as char
    } else if v < 62 {
        (v as u8 - 4) as char
    } else if v == 62 {
        '+'
    } else {
        '/'
    }
}

/// Standard, padded base64.
pub fn base64(data: &[u8]) -> (out: String)
    ensures
        out@ == base64_text(data@),
{
    let mut out: String = String::new();
    let mut i: usize = 0;
    assert(data@.skip(0) =~= data@);
    assert(out@ + base64_text(data@) =~= base64_text(data@));
    while i < data.len()
        invariant
            i <= data@.len(),
            out@ + base64_text(data@.skip(i as int)) == base64_text(data@),
        decreases data@.len() - i,
    {
        let ghost rest = data@.skip(i as int);
        let ghost before = out@;
        let left: usize = data.len() - i;
        let b1: u32 = data[i] as u32;
        let b2: u32 = if left > 1 {
            data[i + 1] as u32
        } else {
            0
        };
        let b3: u32 = if left > 2 {
            data[i + 2] as u32
        } else {
            0
        };
        let n: u32 = b1 * 0x1_0000 + b2 * 0x100 + b3;
        assert(n == base64_group(rest));
        assert(n / 0x4_0000 < 64);
        out.push(digit(n / 0x4_0000));
        out.push(digit(n / 0x1000 % 64));
        if left > 1 {
            out.push(digit(n / 64 % 64));
        } else {
            out.push('=');
        }
        if left > 2 {
            out.push(digit(n % 64));
        } else {
            out.push('=');
        }
        assert(out@ =~= before + base64_quad(rest));
        if left <= 3 {
            i = data.len();
            assert(data@.skip(i as int) =~= Seq::empty());
            assert(out@ + base64_text(data@.skip(i as int)) =~= before + base64_text(rest));
        } else {
            i = i + 3;
            assert(rest.skip(3) =~= data@.skip(i as int));
            assert(out@ + base64_text(data@.skip(i as int)) =~= before + base64_text(rest));
        }
    }
    assert(data@.skip(i as int) =~= Seq::empty());
    assert(out@ + base64_text(data@.skip(i as int)) =~= out@);
    out
}

/// The escape sequence that asks the terminal to put `text` on the clipboard. It
/// paints nothing.
pub fn osc52(text: &str) -> (s: String)
    ensures
        s@ == "\x1b]52;c;"@ + base64_text(encode_utf8(text@)) + "\x07"@,
{
    let payload: String = base64(text.as_bytes());
    concat(concat("\x1b]52;c;", payload.as_str()).as_str(), "\x07")
}

/// The digits are those of the standard alphabet: the capital letters, the small
/// letters, the decimal digits, then `+` and `/`.
pub proof fn the_alphabet_is_standard(v: int)
    requires
        0 <= v < 64,
    ensures
        base64_digit(v)
            == "ABCDEFGHIJKLMNOPQRSTUVWXYZabcdefghijklmnopqrstuvwxyz0123456789+/"@[v],
{
    reveal_strlit("ABCDEFGHIJKLMNOPQRSTUVWXYZabcdefghijklmnopqrstuvwxyz0123456789+/");
}

/// What a terminal gets is what was copied: between the head of the escape and
/// its end stands padded base64 that decodes to the UTF-8 of the text.
pub proof fn a_copy_carries_its_text(text: &str, s: String)
    requires
        call_ensures(osc52, (text,), s),
    ensures
        s@.len() >= 8,
        s@.take(7) == seq!['\x1b', ']', '5', '2', ';', 'c', ';'],
        s@.last() == '\x07',
        base64_decoded(s@.subrange(7, s@.len() - 1)) == encode_utf8(text@),
{
    reveal_strlit("\x1b]52;c;");
    reveal_strlit("\x07");
    let payload = base64_text(encode_utf8(text@));
    assert(s@.subrange(7, s@.len() - 1) =~= payload);
    assert(s@.take(7) =~= seq!['\x1b', ']', '5', '2', ';', 'c', ';']);
    base64_round_trips(encode_utf8(text@));
}

/// Three bytes are encoded on their own: what begins with whole groups of three
/// is encoded as those groups and then as the rest.
pub proof fn whole_groups_are_encoded_apart(
    a: &[u8],
    b: &[u8],
    both: &[u8],
    x: String,
    y: String,
    z: String,
)
    requires
        both@ == a@ + b@,
        a@.len() % 3 == 0,
        call_ensures(base64, (a,), x),
        call_ensures(base64, (b,), y),
        call_ensures(base64, (both,), z),
    ensures
        z@ == x@ + y@,
{
    groups_are_encoded_apart(a@, b@);
}

proof fn groups_are_encoded_apart(a: Seq<u8>, b: Seq<u8>)
    requires
        a.len() % 3 == 0,
    ensures
        base64_text(a + b) == base64_text(a) + base64_text(b),
    decreases a.len(),
{
    if a.len() == 0 {
        assert(a + b =~= b);
        assert(base64_text(a) + base64_text(b) =~= base64_text(b));
    } else {
        let rest = a.skip(3);
        groups_are_encoded_apart(rest, b);
        assert((a + b).skip(3) =~= rest + b);
        assert(base64_quad(a + b) =~= base64_quad(a));
        assert(base64_text(a) =~= base64_quad(a) + base64_text(rest));
        assert(base64_text(a + b) =~= base64_quad(a) + base64_text(rest + b));
        assert(base64_text(a + b) =~= base64_text(a) + base64_text(b));
    }
}

} // verus!
