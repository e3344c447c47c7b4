//! Copying to the terminal's clipboard.

use vstd::prelude::*;
use vstd::string::*;
use vstd::utf8::encode_utf8;

use crate::text;

verus! {

/// The digit of base 64 for a value below 64.
pub open spec fn digit64(d: int) -> char {
    if d < 26 {
        (d + 65) as char
    } else if d < 52 {
        (d + 71) as char
    } else if d < 62 {
        (d - 4) as char
    } else if d == 62 {
        '+'
    } else {
        '/'
    }
}

/// The number that three bytes make.
pub open spec fn triple(a: u8, b: u8, c: u8) -> int {
    a * 65536 + b * 256 + c
}

/// Base 64 with padding: four digits for each three bytes.
pub open spec fn base64_of(data: Seq<u8>) -> Seq<char>
    decreases data.len(),
{
    if data.len() == 0 {
        Seq::empty()
    } else if data.len() == 1 {
        let n = triple(data[0], 0, 0);
        seq![digit64(n / 262144), digit64(n / 4096 % 64), '=', '=']
    } else if data.len() == 2 {
        let n = triple(data[0], data[1], 0);
        seq![digit64(n / 262144), digit64(n / 4096 % 64), digit64(n / 64 % 64), '=']
    } else {
        let n = triple(data[0], data[1], data[2]);
        seq![
            digit64(n / 262144),
            digit64(n / 4096 % 64),
            digit64(n / 64 % 64),
            digit64(n % 64),
        ] + base64_of(data.skip(3))
    }
}

fn digit(d: u32) -> (r: char)
    requires
        d < 64,
    ensures
        r == digit64(d as int),
{
    if d < 26 {
        (d as u8 + 65) as char
    } else if d < 52 {
        (d as u8 + 71) as char
    } else if d < 62 {
        (d as u8 - 4) as char
    } else if d == 62 {
        '+'
    } else {
        '/'
    }
}

pub fn base64(data: &[u8]) -> (r: String)
    ensures
        r@ == base64_of(data@),
{
    let mut out = String::new();
    let mut i: usize = 0;
    let len: usize = data.len();
    assert(data@.skip(0) =~= data@);
    assert(out@ + base64_of(data@) =~= base64_of(data@));
    while i < len
        invariant
            len == data@.len(),
            i <= len,
            out@ + base64_of(data@.skip(i as int)) == base64_of(data@),
        decreases len - i,
    {
        let ghost rest = data@.skip(i as int);
        let ghost before = out@;
        let left: usize = len - i;
        let a: u32 = data[i] as u32;
        let b: u32 = if left > 1 { data[i + 1] as u32 } else { 0 };
        let c: u32 = if left > 2 { data[i + 2] as u32 } else { 0 };
        let n: u32 = a * 65536 + b * 256 + c;
        out.push(digit(n / 262144));
        out.push(digit(n / 4096 % 64));
        out.push(if left > 1 { digit(n / 64 % 64) } else { '=' });
        out.push(if left > 2 { digit(n % 64) } else { '=' });
        proof {
            assert(rest[0] == data@[i as int]);
            if left > 1 {
                assert(rest[1] == data@[i + 1]);
            }
            if left > 2 {
                assert(rest[2] == data@[i + 2]);
            }
        }
        if left > 3 {
            assert(rest.skip(3) =~= data@.skip(i + 3));
            assert(out@ + base64_of(data@.skip(i + 3)) =~= before + base64_of(rest));
            i = i + 3;
        } else {
            assert(data@.skip(len as int) =~= Seq::empty());
            assert(left == 3 ==> rest.skip(3) =~= Seq::empty());
            assert(out@ + base64_of(data@.skip(len as int)) =~= before + base64_of(rest));
            i = len;
        }
    }
    assert(data@.skip(i as int) =~= Seq::empty());
    assert(out@ + Seq::empty() =~= out@);
    out
}

/// The terminal sequence that sets the clipboard (OSC 52), which works over SSH
/// too.
pub fn clipboard_sequence(content: &str) -> (r: String)
    ensures
        r@ == "\x1b]52;c;"@ + base64_of(encode_utf8(content@)) + "\x07"@,
{
    let b = base64(content.as_bytes());
    text::cat3("\x1b]52;c;", b.as_str(), "\x07")
}

// ---- laws ----------------------------------------------------------------

/// The value of a digit of base 64.
pub open spec fn value64(c: char) -> int {
    if 'A' <= c <= 'Z' {
        c as int - 65
    } else if 'a' <= c <= 'z' {
        c as int - 71
    } else if '0' <= c <= '9' {
        c as int + 4
    } else if c == '+' {
        62
    } else {
        63
    }
}

/// The bytes that padded base 64 stands for.
pub open spec fn decoded64(s: Seq<char>) -> Seq<u8>
    decreases s.len(),
{
    if s.len() < 4 {
        Seq::empty()
    } else {
        let n = value64(s[0]) * 262144 + value64(s[1]) * 4096 + if s[2] == '=' {
            0
        } else {
            value64(s[2]) * 64
        } + if s[3] == '=' {
            0
        } else {
            value64(s[3])
        };
        let a = (n / 65536) as u8;
        let b = (n / 256 % 256) as u8;
        let c = (n % 256) as u8;
        if s[2] == '=' {
            seq![a]
        } else if s[3] == '=' {
            seq![a, b]
        } else {
            seq![a, b, c] + decoded64(s.skip(4))
        }
    }
}

proof fn lemma_digit64(d: int)
    requires
        0 <= d < 64,
    ensures
        value64(digit64(d)) == d,
        digit64(d) != '=',
{
}

/// The four digits of a number of three bytes give it back.
proof fn lemma_quad(n: int)
    requires
        0 <= n < 16777216,
    ensures
        0 <= n / 262144 < 64,
        n == (n / 262144) * 262144 + (n / 4096 % 64) * 4096 + (n / 64 % 64) * 64 + n % 64,
{
    assert(n / 4096 == (n / 262144) * 64 + n / 4096 % 64);
    assert(n / 64 == (n / 4096) * 64 + n / 64 % 64);
}

/// Three bytes can be taken out of the number that they make.
proof fn lemma_triple(a: u8, b: u8, c: u8)
    ensures
        0 <= triple(a, b, c) < 16777216,
        triple(a, b, c) / 65536 == a,
        triple(a, b, c) / 256 % 256 == b,
        triple(a, b, c) % 256 == c,
        c == 0 ==> triple(a, b, c) % 64 == 0,
        b == 0 && c == 0 ==> triple(a, b, c) / 64 % 64 == 0,
{
}

/// The number of four digits.
spec fn quad(s: Seq<char>) -> int {
    value64(s[0]) * 262144 + value64(s[1]) * 4096 + if s[2] == '=' {
        0
    } else {
        value64(s[2]) * 64
    } + if s[3] == '=' {
        0
    } else {
        value64(s[3])
    }
}

/// The digits of the first bytes of `data` give back the number of those bytes.
proof fn lemma_first_quad(data: Seq<u8>)
    requires
        data.len() > 0,
    ensures
        base64_of(data).len() >= 4,
        quad(base64_of(data)) == triple(
            data[0],
            if data.len() > 1 {
                data[1]
            } else {
                0
            },
            if data.len() > 2 {
                data[2]
            } else {
                0
            },
        ),
        (base64_of(data)[2] == '=') == (data.len() == 1),
        (base64_of(data)[3] == '=') == (data.len() <= 2),
{
    let b: u8 = if data.len() > 1 { data[1] } else { 0 };
    let c: u8 = if data.len() > 2 { data[2] } else { 0 };
    let n = triple(data[0], b, c);
    lemma_triple(data[0], b, c);
    lemma_quad(n);
    lemma_digit64(n / 262144);
    lemma_digit64(n / 4096 % 64);
    lemma_digit64(n / 64 % 64);
    lemma_digit64(n % 64);
    let e = base64_of(data);
    assert(e[0] == digit64(n / 262144));
    assert(e[1] == digit64(n / 4096 % 64));
    assert(data.len() > 1 ==> e[2] == digit64(n / 64 % 64));
    assert(data.len() > 2 ==> e[3] == digit64(n % 64));
}

/// What was encoded can be decoded again: nothing of the text is lost.
pub proof fn base64_decodes_back(data: Seq<u8>)
    ensures
        decoded64(base64_of(data)) == data,
    decreases data.len(),
{
    let e = base64_of(data);
    if data.len() > 0 {
        lemma_first_quad(data);
        lemma_triple(
            data[0],
            if data.len() > 1 {
                data[1]
            } else {
                0
            },
            if data.len() > 2 {
                data[2]
            } else {
                0
            },
        );
        if data.len() > 2 {
            base64_decodes_back(data.skip(3));
            assert(e.skip(4) =~= base64_of(data.skip(3)));
        }
    }
    assert(decoded64(e) =~= data);
}

/// Four digits are spent on each three bytes, or on what is left of them.
pub proof fn base64_length(data: Seq<u8>)
    ensures
        base64_of(data).len() == (data.len() + 2) / 3 * 4,
    decreases data.len(),
{
    if data.len() > 2 {
        base64_length(data.skip(3));
    }
}

} // verus!
