//! Standard base64 (RFC 4648 alphabet, `=` padding) for the key store and
//! for audio handed over as text.

use vstd::prelude::*;

verus! {

/// The character that encodes the 6-bit value `v`.
#[verifier::opaque]
pub open spec fn b64_char(v: int) -> char {
    if v < 26 {
        (65 + v) as char
    } else if v < 52 {
        (97 + (v - 26)) as char
    } else if v < 62 {
        (48 + (v - 52)) as char
    } else if v == 62 {
        '+'
    } else {
        '/'
    }
}

/// The 6-bit value that a character encodes, if it is a base64 digit.
#[verifier::opaque]
pub open spec fn b64_value(c: char) -> Option<u8> {
    let x = c as int;
    if 65 <= x <= 90 {
        Some((x - 65) as u8)
    } else if 97 <= x <= 122 {
        Some((x - 71) as u8)
    } else if 48 <= x <= 57 {
        Some((x + 4) as u8)
    } else if x == 43 {
        Some(62u8)
    } else if x == 47 {
        Some(63u8)
    } else {
        None
    }
}

fn digit_char(v: u8) -> (c: char)
    requires
        v < 64,
    ensures
        c == b64_char(v as int),
{
    reveal(b64_char);
    if v < 26 {
        (65u8 + v) as char
    } else if v < 52 {
        (97u8 + (v - 26)) as char
    } else if v < 62 {
        (48u8 + (v - 52)) as char
    } else if v == 62 {
        '+'
    } else {
        '/'
    }
}

fn digit_value(c: char) -> (r: Option<u8>)
    ensures
        r == b64_value(c),
        r matches Some(v) ==> v < 64,
{
    reveal(b64_value);
    let x = c as u32;
    if 65 <= x && x <= 90 {
        Some((x - 65) as u8)
    } else if 97 <= x && x <= 122 {
        Some((x - 71) as u8)
    } else if 48 <= x && x <= 57 {
        Some((x + 4) as u8)
    } else if x == 43 {
        Some(62u8)
    } else if x == 47 {
        Some(63u8)
    } else {
        None
    }
}


/// The four characters that encode a group of one to three bytes; a group
/// shorter than three bytes is completed with zero bits and `=` padding.
pub open spec fn encode_group(g: Seq<u8>) -> Seq<char>
    recommends
        1 <= g.len() <= 3,
{
    let b0 = g[0] as int;
    let b1 = if g.len() > 1 { g[1] as int } else { 0 };
    let b2 = if g.len() > 2 { g[2] as int } else { 0 };
    seq![
        b64_char(b0 / 4),
        b64_char((b0 % 4) * 16 + b1 / 16),
        if g.len() > 1 { b64_char((b1 % 16) * 4 + b2 / 64) } else { '=' },
        if g.len() > 2 { b64_char(b2 % 64) } else { '=' },
    ]
}

/// Base64 text of `data`: one group of four characters per three bytes.
pub open spec fn base64_encode_spec(data: Seq<u8>) -> Seq<char>
    decreases data.len(),
{
    if data.len() == 0 {
        seq![]
    } else if data.len() <= 3 {
        encode_group(data)
    } else {
        encode_group(data.take(3)) + base64_encode_spec(data.skip(3))
    }
}

/// The text with every `=` removed.
pub open spec fn strip_padding(s: Seq<char>) -> Seq<char> {
    s.filter(|c: char| c != '=')
}

/// Every character is a base64 digit.
pub open spec fn all_digits(s: Seq<char>) -> bool {
    forall|i: int| 0 <= i < s.len() ==> (#[trigger] b64_value(s[i])) is Some
}

/// The bytes that a group of two to four digits decodes to.
pub open spec fn decode_group(g: Seq<char>) -> Seq<u8>
    recommends
        2 <= g.len() <= 4,
        all_digits(g),
{
    let v0 = b64_value(g[0])->0 as int;
    let v1 = b64_value(g[1])->0 as int;
    let x0 = (v0 * 4 + v1 / 16) as u8;
    if g.len() == 2 {
        seq![x0]
    } else {
        let v2 = b64_value(g[2])->0 as int;
        let x1 = ((v1 % 16) * 16 + v2 / 4) as u8;
        if g.len() == 3 {
            seq![x0, x1]
        } else {
            let v3 = b64_value(g[3])->0 as int;
            seq![x0, x1, ((v2 % 4) * 64 + v3) as u8]
        }
    }
}

/// The bytes that a run of digits (padding already removed) decodes to,
/// one group of up to four digits at a time.
pub open spec fn base64_decode_digits(d: Seq<char>) -> Seq<u8>
    decreases d.len(),
{
    if d.len() <= 1 {
        seq![]
    } else if d.len() <= 4 {
        decode_group(d)
    } else {
        decode_group(d.take(4)) + base64_decode_digits(d.skip(4))
    }
}

/// The inputs on which decoding has no answer: the digits end in a lone
/// digit, which cannot encode a byte.
pub open spec fn base64_decode_defined(s: Seq<char>) -> bool {
    !(strip_padding(s).len() % 4 == 1 && all_digits(strip_padding(s)))
}

proof fn lemma_encode_bits(b0: u8, b1: u8, b2: u8)
    ensures
        b0 >> 2u8 == b0 / 4,
        ((b0 & 3u8) << 4u8) | (b1 >> 4u8) == (b0 % 4) * 16 + b1 / 16,
        ((b1 & 15u8) << 2u8) | (b2 >> 6u8) == (b1 % 16) * 4 + b2 / 64,
        b2 & 63u8 == b2 % 64,
{
    assert(b0 >> 2u8 == b0 / 4) by (bit_vector);
    assert(((b0 & 3u8) << 4u8) | (b1 >> 4u8) == (b0 % 4) * 16 + b1 / 16) by (bit_vector);
    assert(((b1 & 15u8) << 2u8) | (b2 >> 6u8) == (b1 % 16) * 4 + b2 / 64) by (bit_vector);
    assert(b2 & 63u8 == b2 % 64) by (bit_vector);
}

proof fn lemma_decode_bits(v0: u8, v1: u8, v2: u8, v3: u8)
    requires
        v0 < 64,
        v1 < 64,
        v2 < 64,
        v3 < 64,
    ensures
        (v0 << 2u8) | (v1 >> 4u8) == v0 * 4 + v1 / 16,
        ((v1 & 15u8) << 4u8) | (v2 >> 2u8) == (v1 % 16) * 16 + v2 / 4,
        ((v2 & 3u8) << 6u8) | v3 == (v2 % 4) * 64 + v3,
{
    assert((v0 << 2u8) | (v1 >> 4u8) == v0 * 4 + v1 / 16) by (bit_vector)
        requires
            v0 < 64,
            v1 < 64,
    ;
    assert(((v1 & 15u8) << 4u8) | (v2 >> 2u8) == (v1 % 16) * 16 + v2 / 4) by (bit_vector)
        requires
            v2 < 64,
    ;
    assert(((v2 & 3u8) << 6u8) | v3 == (v2 % 4) * 64 + v3) by (bit_vector)
        requires
            v3 < 64,
    ;
}

/// The length of the base64 text of `n` bytes: four characters for each
/// group of up to three bytes.
pub open spec fn encoded_len(n: nat) -> nat {
    4 * ((n + 2) / 3)
}

/// The number of bytes that `n` digits decode to: three for each full
/// group of four, and one less than the digits of a final shorter group.
pub open spec fn decoded_len(n: nat) -> nat {
    3 * (n / 4) + if n % 4 == 0 { 0 } else { (n % 4 - 1) as nat }
}

/// Base64 text of `n` bytes has `encoded_len(n)` characters.
pub proof fn lemma_encoded_len(data: Seq<u8>)
    ensures
        base64_encode_spec(data).len() == encoded_len(data.len()),
    decreases data.len(),
{
    if data.len() > 3 {
        lemma_encoded_len(data.skip(3));
    }
}

/// `n` digits (not ending in a lone digit) decode to `decoded_len(n)` bytes.
pub proof fn lemma_decoded_len(d: Seq<char>)
    requires
        d.len() % 4 != 1,
    ensures
        base64_decode_digits(d).len() == decoded_len(d.len()),
    decreases d.len(),
{
    if d.len() > 4 {
        lemma_decoded_len(d.skip(4));
    }
}

/// How many `=` end the base64 text of `n` bytes: none for a whole number
/// of three-byte groups, else two for one byte left over and one for two.
pub open spec fn padding_len(n: nat) -> nat {
    ((3 - n % 3) % 3) as nat
}

proof fn lemma_group_has_no_padding(g: Seq<u8>)
    requires
        1 <= g.len() <= 3,
    ensures
        encode_group(g)[0] != '=',
        encode_group(g)[1] != '=',
        g.len() > 1 ==> encode_group(g)[2] != '=',
        g.len() > 2 ==> encode_group(g)[3] != '=',
{
    reveal(b64_char);
}

/// `=` stands only at the end of base64 text: exactly its last
/// `padding_len(n)` characters are `=`, which is none when the number of
/// bytes is a multiple of three.
pub proof fn lemma_encoded_padding(data: Seq<u8>)
    ensures
        forall|i: int|
            0 <= i < base64_encode_spec(data).len() ==> (#[trigger] base64_encode_spec(data)[i]
                == '=' <==> i >= base64_encode_spec(data).len() - padding_len(data.len())),
    decreases data.len(),
{
    lemma_encoded_len(data);
    if data.len() == 0 {
    } else if data.len() <= 3 {
        lemma_group_has_no_padding(data);
    } else {
        let g = data.take(3);
        let rest = data.skip(3);
        lemma_encoded_padding(rest);
        lemma_encoded_len(rest);
        lemma_group_has_no_padding(g);
        assert((data.len() - 3) % 3 == data.len() % 3);
        let t = base64_encode_spec(data);
        assert(t == encode_group(g) + base64_encode_spec(rest));
        assert forall|i: int| 0 <= i < t.len() implies (#[trigger] t[i] == '=' <==> i >= t.len()
            - padding_len(data.len())) by {
            if i >= 4 {
                assert(t[i] == base64_encode_spec(rest)[i - 4]);
            }
        }
    }
}

/// Encodes bytes as base64 text.
pub fn base64_encode(data: &[u8]) -> (r: String)
    ensures
        r@ == base64_encode_spec(data@),
        r@.len() == encoded_len(data@.len()),
        forall|i: int|
            0 <= i < r@.len() ==> (#[trigger] r@[i] == '=' <==> i >= r@.len() - padding_len(
                data@.len(),
            )),
{
    proof {
        lemma_encoded_len(data@);
        lemma_encoded_padding(data@);
    }
    let n = data.len();
    let mut out = String::new();
    let mut i: usize = 0;
    assert(data@.skip(0) =~= data@);
    assert(out@ + base64_encode_spec(data@) =~= base64_encode_spec(data@));
    while i < n
        invariant
            n == data@.len(),
            i <= n,
            out@ + base64_encode_spec(data@.skip(i as int)) == base64_encode_spec(data@),
        decreases n - i,
    {
        let rem = n - i;
        let b0 = data[i];
        let b1 = if rem > 1 { data[i + 1] } else { 0u8 };
        let b2 = if rem > 2 { data[i + 2] } else { 0u8 };
        proof {
            lemma_encode_bits(b0, b1, b2);
        }
        let ghost before = out@;
        let ghost g = data@.skip(i as int).take(if rem > 3 { 3 } else { rem as int });
        crate::text::push_char(&mut out, digit_char(b0 >> 2u8));
        crate::text::push_char(&mut out, digit_char(((b0 & 3u8) << 4u8) | (b1 >> 4u8)));
        if rem > 1 {
            crate::text::push_char(&mut out, digit_char(((b1 & 15u8) << 2u8) | (b2 >> 6u8)));
        } else {
            crate::text::push_char(&mut out, '=');
        }
        if rem > 2 {
            crate::text::push_char(&mut out, digit_char(b2 & 63u8));
        } else {
            crate::text::push_char(&mut out, '=');
        }
        assert(out@ =~= before + encode_group(g));
        let step = if rem > 3 { 3 } else { rem };
        assert(data@.skip(i as int).skip(step as int) =~= data@.skip((i + step) as int));
        if rem <= 3 {
            assert(g =~= data@.skip(i as int));
            assert(data@.skip((i + step) as int).len() == 0);
        }
        i = i + step;
    }
    assert(data@.skip(n as int).len() == 0);
    out
}


/// The digits of `s`: its characters with every `=` removed.
fn strip_padding_exec(s: &str) -> (r: Vec<char>)
    ensures
        r@ == strip_padding(s@),
{
    let chars = crate::text::to_chars(s);
    let mut digits: Vec<char> = Vec::new();
    let mut i: usize = 0;
    assert(chars@.take(0) =~= Seq::<char>::empty());
    while i < chars.len()
        invariant
            i <= chars@.len(),
            digits@ == strip_padding(chars@.take(i as int)),
        decreases chars@.len() - i,
    {
        let c = chars[i];
        proof {
            reveal(Seq::filter);
            assert(chars@.take((i + 1) as int).drop_last() =~= chars@.take(i as int));
        }
        if c != '=' {
            digits.push(c);
        }
        i = i + 1;
    }
    assert(chars@.take(chars@.len() as int) =~= chars@);
    digits
}

/// Decodes the group `d[j..j + len]` of two to four digits.
fn decode_group_exec(d: &Vec<char>, j: usize, len: usize) -> (r: Option<Vec<u8>>)
    requires
        2 <= len <= 4,
        j + len <= d@.len(),
    ensures
        r is Some <==> all_digits(d@.subrange(j as int, j + len)),
        r matches Some(v) ==> v@ == decode_group(d@.subrange(j as int, j + len)),
{
    let ghost g = d@.subrange(j as int, j + len);
    let _n = d.len();
    let v0 = match digit_value(d[j]) {
        Some(v) => v,
        None => {
            assert(b64_value(g[0]) is None);
            return None;
        },
    };
    let v1 = match digit_value(d[j + 1]) {
        Some(v) => v,
        None => {
            assert(b64_value(g[1]) is None);
            return None;
        },
    };
    let mut v2: u8 = 0;
    if len > 2 {
        v2 = match digit_value(d[j + 2]) {
            Some(v) => v,
            None => {
                assert(b64_value(g[2]) is None);
                return None;
            },
        };
    }
    let mut v3: u8 = 0;
    if len > 3 {
        v3 = match digit_value(d[j + 3]) {
            Some(v) => v,
            None => {
                assert(b64_value(g[3]) is None);
                return None;
            },
        };
    }
    proof {
        lemma_decode_bits(v0, v1, v2, v3);
        assert(all_digits(g)) by {
            assert forall|k: int| 0 <= k < g.len() implies (#[trigger] b64_value(g[k])) is Some by {
                assert(k == 0 || k == 1 || k == 2 || k == 3);
            }
        }
    }
    let mut out: Vec<u8> = Vec::new();
    out.push((v0 << 2u8) | (v1 >> 4u8));
    if len > 2 {
        out.push(((v1 & 15u8) << 4u8) | (v2 >> 2u8));
    }
    if len > 3 {
        out.push(((v2 & 3u8) << 6u8) | v3);
    }
    assert(out@ =~= decode_group(g));
    Some(out)
}

/// Whether `base64_decode` has an answer for `s`: its digits do not end in
/// a lone digit. Callers that take text from outside test this first.
pub fn base64_decodable(s: &str) -> (r: bool)
    ensures
        r == base64_decode_defined(s@),
{
    let digits = strip_padding_exec(s);
    if digits.len() % 4 != 1 {
        return true;
    }
    let mut i: usize = 0;
    while i < digits.len()
        invariant
            digits@ == strip_padding(s@),
            i <= digits@.len(),
            forall|k: int| 0 <= k < i ==> (#[trigger] b64_value(digits@[k])) is Some,
        decreases digits@.len() - i,
    {
        if digit_value(digits[i]).is_none() {
            assert(b64_value(digits@[i as int]) is None);
            return true;
        }
        i = i + 1;
    }
    false
}

fn append_bytes(out: &mut Vec<u8>, group: &Vec<u8>)
    ensures
        final(out)@ == old(out)@ + group@,
{
    let ghost before = out@;
    let mut t: usize = 0;
    while t < group.len()
        invariant
            t <= group@.len(),
            out@ == before + group@.take(t as int),
        decreases group@.len() - t,
    {
        out.push(group[t]);
        t = t + 1;
        assert(out@ =~= before + group@.take(t as int));
    }
    assert(group@.take(group@.len() as int) =~= group@);
}

proof fn lemma_decode_step(d: Seq<char>, j: int, step: int)
    requires
        0 <= j < d.len(),
        d.len() - j > 1,
        step == if d.len() - j > 4 { 4 } else { d.len() - j },
    ensures
        base64_decode_digits(d.skip(j)) == decode_group(d.subrange(j, j + step))
            + base64_decode_digits(d.skip(j + step)),
{
    let rem = d.len() - j;
    assert(d.skip(j).take(step) =~= d.subrange(j, j + step));
    assert(d.skip(j).skip(step) =~= d.skip(j + step));
    if rem <= 4 {
        assert(d.subrange(j, j + step) =~= d.skip(j));
        assert(d.skip(j + step).len() == 0);
        assert(decode_group(d.subrange(j, j + step)) + base64_decode_digits(d.skip(j + step))
            =~= decode_group(d.subrange(j, j + step)));
    }
}

/// Decodes base64 text. Every `=` is skipped wherever it stands; the other
/// characters are read four at a time, and a final group of two or three
/// digits gives one or two bytes.
pub fn base64_decode(s: &str) -> (r: Result<Vec<u8>, &'static str>)
    requires
        base64_decode_defined(s@),
    ensures
        r is Ok <==> all_digits(strip_padding(s@)),
        r matches Ok(v) ==> v@ == base64_decode_digits(strip_padding(s@)),
        r matches Ok(v) ==> v@.len() == decoded_len(strip_padding(s@).len()),
        r matches Err(e) ==> e@ == "invalid base64"@,
{
    proof {
        reveal_strlit("invalid base64");
        if all_digits(strip_padding(s@)) {
            lemma_decoded_len(strip_padding(s@));
        }
    }
    let digits = strip_padding_exec(s);
    let m = digits.len();
    let mut out: Vec<u8> = Vec::new();
    let mut j: usize = 0;
    assert(digits@.skip(0) =~= digits@);
    assert(out@ + base64_decode_digits(digits@) =~= base64_decode_digits(digits@));
    while j < m
        invariant
            m == digits@.len(),
            digits@ == strip_padding(s@),
            base64_decode_defined(s@),
            j <= m,
            j % 4 == 0 || j == m,
            forall|k: int| 0 <= k < j ==> (#[trigger] b64_value(digits@[k])) is Some,
            out@ + base64_decode_digits(digits@.skip(j as int)) == base64_decode_digits(digits@),
        decreases m - j,
    {
        let rem = m - j;
        if rem == 1 {
            match digit_value(digits[j]) {
                Some(_) => {
                    proof {
                        assert forall|k: int| 0 <= k < digits@.len() implies (#[trigger] b64_value(
                            digits@[k],
                        )) is Some by {
                            if k >= j {
                                assert(k == j);
                            }
                        }
                        assert(false);
                    }
                },
                None => {},
            }
            return Err("invalid base64");
        }
        let step = if rem > 4 { 4 } else { rem };
        let ghost g = digits@.subrange(j as int, j + step);
        let group = match decode_group_exec(&digits, j, step) {
            Some(v) => v,
            None => {
                proof {
                    let k = choose|k: int| 0 <= k < g.len() && (#[trigger] b64_value(g[k])) is None;
                    assert(b64_value(digits@[j + k]) is None);
                }
                return Err("invalid base64");
            },
        };
        append_bytes(&mut out, &group);
        proof {
            lemma_decode_step(digits@, j as int, step as int);
            assert forall|k: int| 0 <= k < j + step implies (#[trigger] b64_value(digits@[k])) is Some by {
                if k >= j {
                    assert(b64_value(g[k - j]) is Some);
                }
            }
        }
        j = j + step;
    }
    assert(digits@.skip(m as int).len() == 0);
    proof {
        assert(all_digits(digits@));
    }
    Ok(out)
}

proof fn lemma_char_value(v: int)
    requires
        0 <= v < 64,
    ensures
        b64_value(b64_char(v)) == Some(v as u8),
        b64_char(v) != '=',
{
    reveal(b64_char);
    reveal(b64_value);
}

proof fn lemma_group_arith(b0: int, b1: int, b2: int)
    requires
        0 <= b0 < 256,
        0 <= b1 < 256,
        0 <= b2 < 256,
    ensures
        0 <= b0 / 4 < 64,
        0 <= (b0 % 4) * 16 + b1 / 16 < 64,
        0 <= (b1 % 16) * 4 + b2 / 64 < 64,
        0 <= b2 % 64 < 64,
        (b0 / 4) * 4 + ((b0 % 4) * 16 + b1 / 16) / 16 == b0,
        (((b0 % 4) * 16 + b1 / 16) % 16) * 16 + ((b1 % 16) * 4 + b2 / 64) / 4 == b1,
        (((b1 % 16) * 4 + b2 / 64) % 4) * 64 + b2 % 64 == b2,
{
    assert(0 <= (b0 % 4) * 16 + b1 / 16 < 64) by (nonlinear_arith)
        requires
            0 <= b0 < 256,
            0 <= b1 < 256,
    ;
    assert(0 <= (b1 % 16) * 4 + b2 / 64 < 64) by (nonlinear_arith)
        requires
            0 <= b1 < 256,
            0 <= b2 < 256,
    ;
    assert((b0 / 4) * 4 + ((b0 % 4) * 16 + b1 / 16) / 16 == b0) by (nonlinear_arith)
        requires
            0 <= b0 < 256,
            0 <= b1 < 256,
    ;
    assert((((b0 % 4) * 16 + b1 / 16) % 16) * 16 + ((b1 % 16) * 4 + b2 / 64) / 4 == b1)
        by (nonlinear_arith)
        requires
            0 <= b0 < 256,
            0 <= b1 < 256,
            0 <= b2 < 256,
    ;
    assert((((b1 % 16) * 4 + b2 / 64) % 4) * 64 + b2 % 64 == b2) by (nonlinear_arith)
        requires
            0 <= b1 < 256,
            0 <= b2 < 256,
    ;
}

/// The digits of one encoded group: its padding removed.
proof fn lemma_group_digits(g: Seq<u8>)
    requires
        1 <= g.len() <= 3,
    ensures
        strip_padding(encode_group(g)) == encode_group(g).take(g.len() as int + 1),
        all_digits(strip_padding(encode_group(g))),
        decode_group(strip_padding(encode_group(g))) == g,
{
    let e = encode_group(g);
    let b0 = g[0] as int;
    let b1 = if g.len() > 1 { g[1] as int } else { 0 };
    let b2 = if g.len() > 2 { g[2] as int } else { 0 };
    lemma_group_arith(b0, b1, b2);
    lemma_char_value(b0 / 4);
    lemma_char_value((b0 % 4) * 16 + b1 / 16);
    lemma_char_value((b1 % 16) * 4 + b2 / 64);
    lemma_char_value(b2 % 64);
    reveal_with_fuel(Seq::filter, 5);
    assert(e.drop_last().drop_last().drop_last().drop_last() =~= Seq::<char>::empty());
    assert(e.take(1) =~= e.drop_last().drop_last().drop_last());
    assert(e.take(2) =~= e.drop_last().drop_last());
    assert(e.take(3) =~= e.drop_last());
    assert(e.take(4) =~= e);
    let d = strip_padding(e);
    assert(d =~= e.take(g.len() as int + 1));
    assert forall|k: int| 0 <= k < d.len() implies (#[trigger] b64_value(d[k])) is Some by {
        assert(k == 0 || k == 1 || k == 2 || k == 3);
    }
    assert(decode_group(d) =~= g);
}

/// The digits of an encoding never end in a lone digit.
proof fn lemma_encoded_digits(data: Seq<u8>)
    ensures
        all_digits(strip_padding(base64_encode_spec(data))),
        strip_padding(base64_encode_spec(data)).len() % 4 != 1,
        data.len() > 0 ==> strip_padding(base64_encode_spec(data)).len() >= 2,
        base64_decode_digits(strip_padding(base64_encode_spec(data))) == data,
    decreases data.len(),
{
    let e = base64_encode_spec(data);
    if data.len() == 0 {
        reveal(Seq::filter);
        assert(strip_padding(e) =~= Seq::<char>::empty());
        assert(base64_decode_digits(strip_padding(e)) =~= data);
    } else if data.len() <= 3 {
        lemma_group_digits(data);
    } else {
        let g = data.take(3);
        let rest = data.skip(3);
        lemma_group_digits(g);
        lemma_encoded_digits(rest);
        let dg = strip_padding(encode_group(g));
        let dr = strip_padding(base64_encode_spec(rest));
        assert(strip_padding(e) == dg + dr) by {
            Seq::filter_distributes_over_add(
                encode_group(g),
                base64_encode_spec(rest),
                |c: char| c != '=',
            );
        }
        let d = dg + dr;
        assert(dg.len() == 4);
        assert(d.take(4) =~= dg);
        assert(d.skip(4) =~= dr);
        assert forall|k: int| 0 <= k < d.len() implies (#[trigger] b64_value(d[k])) is Some by {
            if k < 4 {
                assert(d[k] == dg[k]);
                assert(b64_value(dg[k]) is Some);
            } else {
                assert(d[k] == dr[k - 4]);
                assert(b64_value(dr[k - 4]) is Some);
            }
        }
        assert(base64_decode_digits(d) == decode_group(d.take(4)) + base64_decode_digits(
            d.skip(4),
        ));
        assert(base64_decode_digits(d) =~= g + rest);
        assert(g + rest =~= data);
    }
}

/// Decoding what `base64_encode` writes gives back the bytes it was given,
/// and such text is always in the domain of `base64_decode`.
pub proof fn lemma_base64_roundtrip(data: Seq<u8>)
    ensures
        base64_decode_defined(base64_encode_spec(data)),
        all_digits(strip_padding(base64_encode_spec(data))),
        base64_decode_digits(strip_padding(base64_encode_spec(data))) == data,
{
    lemma_encoded_digits(data);
}

/// The bytes of a text with every `=` (61) removed.
pub open spec fn strip_padding_bytes(b: Seq<u8>) -> Seq<u8> {
    b.filter(|x: u8| x != 61u8)
}

proof fn lemma_ascii_char(c: char)
    requires
        (c as u32) < 128,
    ensures
        (c as u8) as u32 == c as u32,
        ((c as u8) == 61u8) <==> (c == '='),
        '\0' <= c <= '\u{7f}',
{
    let x = c as u32;
    assert(x as u8 == c as u8);
    assert((x as u8) as u32 == x) by (bit_vector)
        requires
            x < 128,
    ;
}

/// Whether a byte is one of the base64 digits `A-Z a-z 0-9 + /`.
pub open spec fn is_b64_byte(b: u8) -> bool {
    (65 <= b <= 90) || (97 <= b <= 122) || (48 <= b <= 57) || b == 43 || b == 47
}

proof fn lemma_digit_byte(c: char)
    ensures
        (b64_value(c) is Some) <==> ((c as u32) < 128 && is_b64_byte(c as u8)),
{
    reveal(b64_value);
    if (c as u32) < 128 {
        lemma_ascii_char(c);
    }
}

proof fn lemma_ascii_strip(a: Seq<char>, b: Seq<u8>)
    requires
        a.len() == b.len(),
        forall|i: int| 0 <= i < a.len() ==> (a[i] as u32) < 128,
        forall|i: int| 0 <= i < a.len() ==> b[i] == a[i] as u8,
    ensures
        strip_padding_bytes(b) == strip_padding(a).map_values(|c: char| c as u8),
    decreases a.len(),
{
    reveal(Seq::filter);
    if a.len() == 0 {
        assert(strip_padding_bytes(b) =~= strip_padding(a).map_values(|c: char| c as u8));
    } else {
        lemma_ascii_strip(a.drop_last(), b.drop_last());
        let c = a.last();
        lemma_ascii_char(c);
        assert(strip_padding_bytes(b) =~= strip_padding(a).map_values(|c: char| c as u8));
    }
}

proof fn lemma_non_ascii_byte(s: Seq<char>, i: int)
    requires
        0 <= i < s.len(),
        (s[i] as u32) >= 128,
    ensures
        exists|k: int|
            0 <= k < vstd::utf8::encode_utf8(s).len() && #[trigger] vstd::utf8::encode_utf8(s)[k]
                >= 128,
    decreases s.len(),
{
    let e = vstd::utf8::encode_utf8(s);
    let head = vstd::utf8::encode_scalar(s[0] as u32);
    assert(e == head + vstd::utf8::encode_utf8(s.drop_first()));
    if i == 0 {
        let x = s[0] as u32;
        vstd::utf8::char_is_scalar(s[0]);
        assert(forall|y: u8| #[trigger] (0xC0u8 | y) >= 128u8) by (bit_vector);
        assert(forall|y: u8| #[trigger] (0xE0u8 | y) >= 128u8) by (bit_vector);
        assert(forall|y: u8| #[trigger] (0xF0u8 | y) >= 128u8) by (bit_vector);
        assert(head[0] >= 128);
        assert(e[0] == head[0]);
    } else {
        lemma_non_ascii_byte(s.drop_first(), i - 1);
        let rest = vstd::utf8::encode_utf8(s.drop_first());
        let k = choose|k: int| 0 <= k < rest.len() && #[trigger] rest[k] >= 128;
        assert(e[head.len() + k] == rest[k]);
    }
}

/// Decoding is defined on every text on which a decoder of its UTF-8
/// bytes is: where the bytes other than `=` do not end in a lone one.
/// (Text made only of digits and `=` is ASCII, so its bytes and its
/// characters agree one for one.)
pub proof fn lemma_decode_defined_on_bytes(s: Seq<char>)
    requires
        strip_padding_bytes(vstd::utf8::encode_utf8(s)).len() % 4 != 1,
    ensures
        base64_decode_defined(s),
{
    if !base64_decode_defined(s) {
        lemma_decode_on_bytes(s);
    }
}

/// The decoder's verdict read on the text's UTF-8 bytes: its digits are
/// all base64 digits exactly when every byte other than `=` is one of
/// `A-Z a-z 0-9 + /`, and then there are as many such bytes as digits, so
/// `base64_decode` gives `invalid base64` exactly when a byte is outside
/// the alphabet, and otherwise `decoded_len` of the byte count.
pub proof fn lemma_decode_on_bytes(s: Seq<char>)
    ensures
        all_digits(strip_padding(s)) <==> (forall|i: int|
            0 <= i < strip_padding_bytes(vstd::utf8::encode_utf8(s)).len() ==> is_b64_byte(
                #[trigger] strip_padding_bytes(vstd::utf8::encode_utf8(s))[i],
            )),
        all_digits(strip_padding(s)) ==> strip_padding_bytes(vstd::utf8::encode_utf8(s)).len()
            == strip_padding(s).len(),
{
    let d = strip_padding(s);
    let e = vstd::utf8::encode_utf8(s);
    let fb = strip_padding_bytes(e);
    if forall|i: int| 0 <= i < s.len() ==> (#[trigger] s[i] as u32) < 128 {
        assert forall|i: int| 0 <= i < s.len() implies '\0' <= #[trigger] s[i] <= '\u{7f}' by {
            lemma_ascii_char(s[i]);
        }
        assert(vstd::utf8::is_ascii_chars(s));
        vstd::utf8::is_ascii_chars_encode_utf8(s);
        lemma_ascii_strip(s, e);
        assert forall|j: int| 0 <= j < d.len() implies (#[trigger] d[j] as u32) < 128 by {
            assert(d.contains(d[j]));
            s.lemma_filter_contains_rev(|c: char| c != '=', d[j]);
            let k = choose|k: int| 0 <= k < s.len() && s[k] == d[j];
            assert((s[k] as u32) < 128);
        }
        assert forall|j: int| 0 <= j < d.len() implies (b64_value(#[trigger] d[j]) is Some
            <==> is_b64_byte(fb[j])) by {
            lemma_digit_byte(d[j]);
        }
        if !all_digits(d) {
            let j = choose|j: int| 0 <= j < d.len() && !(b64_value(#[trigger] d[j]) is Some);
            assert(!is_b64_byte(fb[j]));
        }
    } else {
        let i = choose|i: int| 0 <= i < s.len() && !((#[trigger] s[i] as u32) < 128);
        if s[i] != '=' {
            s.lemma_filter_contains(|c: char| c != '=', i);
            let j = choose|j: int| 0 <= j < d.len() && d[j] == s[i];
            lemma_digit_byte(d[j]);
            assert(!all_digits(d));
        } else {
            assert((s[i] as u32) == 61);
        }
        lemma_non_ascii_byte(s, i);
        let k = choose|k: int| 0 <= k < e.len() && #[trigger] e[k] >= 128;
        e.lemma_filter_contains(|x: u8| x != 61u8, k);
        let j = choose|j: int| 0 <= j < fb.len() && fb[j] == e[k];
        assert(!is_b64_byte(fb[j]));
    }
}

} // verus!
