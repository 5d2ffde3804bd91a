//! Standard Base64 encoding (RFC 4648 alphabet, `=` padding) and data URLs.

use vstd::prelude::*;

verus! {

/// Character of the standard Base64 alphabet for a sextet value.
pub open spec fn b64_char(v: int) -> char
    recommends
        0 <= v < 64,
{
    if v < 26 {
        ((v + 65) as u8) as char
    } else if v < 52 {
        ((v - 26 + 97) as u8) as char
    } else if v < 62 {
        ((v - 52 + 48) as u8) as char
    } else if v == 62 {
        '+'
    } else {
        '/'
    }
}

/// Sextet value of a standard Base64 alphabet character; -1 for any other
/// character, as a standard decoder would reject it.
pub open spec fn b64_val(c: char) -> int {
    let n = c as int;
    if 65 <= n && n <= 90 {
        n - 65
    } else if 97 <= n && n <= 122 {
        n - 97 + 26
    } else if 48 <= n && n <= 57 {
        n - 48 + 52
    } else if n == 43 {
        62
    } else if n == 47 {
        63
    } else {
        -1
    }
}

/// Standard Base64 encoding of a byte sequence: the input is taken in
/// three-byte groups, each yielding four characters, with `=` padding for a
/// final partial group.
pub open spec fn base64_of(s: Seq<u8>) -> Seq<char>
    decreases s.len(),
{
    if s.len() == 0 {
        Seq::<char>::empty()
    } else if s.len() == 1 {
        let b0 = s[0] as int;
        seq![b64_char(b0 / 4), b64_char((b0 % 4) * 16), '=', '=']
    } else if s.len() == 2 {
        let b0 = s[0] as int;
        let b1 = s[1] as int;
        seq![b64_char(b0 / 4), b64_char((b0 % 4) * 16 + b1 / 16), b64_char((b1 % 16) * 4), '=']
    } else {
        let b0 = s[0] as int;
        let b1 = s[1] as int;
        let b2 = s[2] as int;
        seq![
            b64_char(b0 / 4),
            b64_char((b0 % 4) * 16 + b1 / 16),
            b64_char((b1 % 16) * 4 + b2 / 64),
            b64_char(b2 % 64),
        ] + base64_of(s.skip(3))
    }
}

/// What a standard Base64 decoder yields on well-formed input: four
/// characters at a time, with `=` padding cutting the last group short.
pub open spec fn base64_decode_of(s: Seq<char>) -> Seq<u8>
    decreases s.len(),
{
    if s.len() < 4 {
        Seq::<u8>::empty()
    } else {
        let v0 = b64_val(s[0]);
        let v1 = b64_val(s[1]);
        if s[2] == '=' {
            seq![(v0 * 4 + v1 / 16) as u8]
        } else if s[3] == '=' {
            let v2 = b64_val(s[2]);
            seq![(v0 * 4 + v1 / 16) as u8, ((v1 % 16) * 16 + v2 / 4) as u8]
        } else {
            let v2 = b64_val(s[2]);
            let v3 = b64_val(s[3]);
            seq![
                (v0 * 4 + v1 / 16) as u8,
                ((v1 % 16) * 16 + v2 / 4) as u8,
                ((v2 % 4) * 64 + v3) as u8,
            ] + base64_decode_of(s.skip(4))
        }
    }
}

proof fn lemma_b64_char_val(v: int)
    requires
        0 <= v < 64,
    ensures
        b64_val(b64_char(v)) == v,
        b64_char(v) != '=',
{
}

proof fn lemma_mul_add_div_mod(x: int, y: int, k: int)
    by (nonlinear_arith)
    requires
        k > 0,
        0 <= y < k,
        0 <= x,
    ensures
        (x * k + y) / k == x,
        (x * k + y) % k == y,
{
}

proof fn lemma_div_bound(x: int, k: int, b: int)
    by (nonlinear_arith)
    requires
        k > 0,
        b > 0,
        0 <= x < b * k,
    ensures
        0 <= x / k < b,
{
}

/// Encoding a whole number of three-byte groups distributes over
/// concatenation.
proof fn lemma_base64_append(s: Seq<u8>, t: Seq<u8>)
    requires
        s.len() % 3 == 0,
    ensures
        base64_of(s + t) == base64_of(s) + base64_of(t),
    decreases s.len(),
{
    if s.len() == 0 {
        assert(s + t =~= t);
        assert(base64_of(s) + base64_of(t) =~= base64_of(t));
    } else {
        assert(s.len() >= 3);
        let u = s + t;
        assert(u.len() >= 3);
        assert(u[0] == s[0] && u[1] == s[1] && u[2] == s[2]);
        assert(u.skip(3) =~= s.skip(3) + t);
        assert(s.skip(3).len() % 3 == 0);
        lemma_base64_append(s.skip(3), t);
        assert(base64_of(u) =~= base64_of(s) + base64_of(t));
    }
}

/// Decoding the standard Base64 encoding of any byte sequence yields that
/// sequence back: the round trip is exact for every input length.
pub proof fn lemma_base64_round_trip(s: Seq<u8>)
    ensures
        base64_decode_of(base64_of(s)) == s,
    decreases s.len(),
{
    let e = base64_of(s);
    if s.len() == 0 {
        assert(base64_decode_of(e) =~= s);
    } else if s.len() == 1 {
        let b0 = s[0] as int;
        lemma_b64_char_val(b0 / 4);
        lemma_b64_char_val((b0 % 4) * 16);
        lemma_mul_add_div_mod(b0 % 4, 0, 16);
        assert((b0 / 4) * 4 + b0 % 4 == b0);
        assert(base64_decode_of(e) =~= s);
    } else if s.len() == 2 {
        let b0 = s[0] as int;
        let b1 = s[1] as int;
        lemma_div_bound(b1, 16, 16);
        lemma_b64_char_val(b0 / 4);
        lemma_b64_char_val((b0 % 4) * 16 + b1 / 16);
        lemma_b64_char_val((b1 % 16) * 4);
        lemma_mul_add_div_mod(b0 % 4, b1 / 16, 16);
        lemma_mul_add_div_mod(b1 % 16, 0, 4);
        assert((b0 / 4) * 4 + b0 % 4 == b0);
        assert((b1 / 16) * 16 + b1 % 16 == b1);
        assert(base64_decode_of(e) =~= s);
    } else {
        let b0 = s[0] as int;
        let b1 = s[1] as int;
        let b2 = s[2] as int;
        let v0 = b0 / 4;
        let v1 = (b0 % 4) * 16 + b1 / 16;
        let v2 = (b1 % 16) * 4 + b2 / 64;
        let v3 = b2 % 64;
        lemma_div_bound(b1, 16, 16);
        lemma_div_bound(b2, 64, 4);
        lemma_b64_char_val(v0);
        lemma_b64_char_val(v1);
        lemma_b64_char_val(v2);
        lemma_b64_char_val(v3);
        let grp = seq![b64_char(v0), b64_char(v1), b64_char(v2), b64_char(v3)];
        let rest = base64_of(s.skip(3));
        assert(e == grp + rest);
        assert(e.len() >= 4);
        assert(e[0] == grp[0] && e[1] == grp[1] && e[2] == grp[2] && e[3] == grp[3]);
        assert(e.skip(4) =~= rest);
        lemma_base64_round_trip(s.skip(3));
        lemma_mul_add_div_mod(b0 % 4, b1 / 16, 16);
        lemma_mul_add_div_mod(b1 % 16, b2 / 64, 4);
        assert((b0 / 4) * 4 + b0 % 4 == b0);
        assert((b1 / 16) * 16 + b1 % 16 == b1);
        assert((b2 / 64) * 64 + b2 % 64 == b2);
        assert(v1 / 16 == b0 % 4);
        assert(v1 % 16 == b1 / 16);
        assert(v2 / 4 == b1 % 16);
        assert(v2 % 4 == b2 / 64);
        assert(base64_decode_of(e) =~= seq![s[0], s[1], s[2]] + s.skip(3));
        assert(seq![s[0], s[1], s[2]] + s.skip(3) =~= s);
    }
}

/// Relies on String::push: appends exactly the one given character.
#[verifier::external_body]
fn push_char(s: &mut String, c: char)
    ensures
        final(s)@ == old(s)@ + seq![c],
{
    s.push(c);
}

/// Alphabet character for a sextet value.
fn b64_char_exec(v: u8) -> (c: char)
    requires
        v < 64,
    ensures
        c == b64_char(v as int),
{
    if v < 26 {
        (v + 65) as char
    } else if v < 52 {
        (v - 26 + 97) as char
    } else if v < 62 {
        (v - 52 + 48) as char
    } else if v == 62 {
        '+'
    } else {
        '/'
    }
}

/// Standard Base64 encoding of `input`: three-byte groups become four
/// characters, with `=` padding for a final partial group.
pub fn base64_encode(input: &[u8]) -> (r: String)
    ensures
        r@ == base64_of(input@),
{
    let n = input.len();
    let mut r = String::new();
    let mut i: usize = 0;
    while n - i >= 3
        invariant
            i <= n,
            n == input@.len(),
            i % 3 == 0,
            r@ == base64_of(input@.take(i as int)),
        decreases n - i,
    {
        let b0 = *vstd::slice::slice_index_get(input, i);
        let b1 = *vstd::slice::slice_index_get(input, i + 1);
        let b2 = *vstd::slice::slice_index_get(input, i + 2);
        push_char(&mut r, b64_char_exec(b0 / 4));
        push_char(&mut r, b64_char_exec((b0 % 4) * 16 + b1 / 16));
        push_char(&mut r, b64_char_exec((b1 % 16) * 4 + b2 / 64));
        push_char(&mut r, b64_char_exec(b2 % 64));
        proof {
            let pre = input@.take(i as int);
            let grp = seq![b0, b1, b2];
            assert(input@.take(i + 3) =~= pre + grp);
            lemma_base64_append(pre, grp);
            assert(grp.skip(3) =~= Seq::<u8>::empty());
            assert(base64_of(Seq::<u8>::empty()) =~= Seq::<char>::empty());
            assert(base64_of(grp) =~= seq![
                b64_char(b0 as int / 4),
                b64_char((b0 as int % 4) * 16 + b1 as int / 16),
                b64_char((b1 as int % 16) * 4 + b2 as int / 64),
                b64_char(b2 as int % 64),
            ]);
            assert(r@ =~= base64_of(input@.take(i + 3)));
        }
        i = i + 3;
    }
    if n - i == 1 {
        let b0 = *vstd::slice::slice_index_get(input, i);
        push_char(&mut r, b64_char_exec(b0 / 4));
        push_char(&mut r, b64_char_exec((b0 % 4) * 16));
        push_char(&mut r, '=');
        push_char(&mut r, '=');
        proof {
            let pre = input@.take(i as int);
            let grp = seq![b0];
            assert(input@ =~= pre + grp);
            lemma_base64_append(pre, grp);
            assert(base64_of(grp) =~= seq![
                b64_char(b0 as int / 4),
                b64_char((b0 as int % 4) * 16),
                '=',
                '=',
            ]);
            assert(r@ =~= base64_of(input@));
        }
    } else if n - i == 2 {
        let b0 = *vstd::slice::slice_index_get(input, i);
        let b1 = *vstd::slice::slice_index_get(input, i + 1);
        push_char(&mut r, b64_char_exec(b0 / 4));
        push_char(&mut r, b64_char_exec((b0 % 4) * 16 + b1 / 16));
        push_char(&mut r, b64_char_exec((b1 % 16) * 4));
        push_char(&mut r, '=');
        proof {
            let pre = input@.take(i as int);
            let grp = seq![b0, b1];
            assert(input@ =~= pre + grp);
            lemma_base64_append(pre, grp);
            assert(base64_of(grp) =~= seq![
                b64_char(b0 as int / 4),
                b64_char((b0 as int % 4) * 16 + b1 as int / 16),
                b64_char((b1 as int % 16) * 4),
                '=',
            ]);
            assert(r@ =~= base64_of(input@));
        }
    } else {
        proof {
            assert(input@.take(i as int) =~= input@);
        }
    }
    r
}

/// Standard Base64 encoding of a binary asset, for embedding in HTML or CSS.
pub fn to_base64(data: &[u8]) -> (r: String)
    ensures
        r@ == base64_of(data@),
{
    base64_encode(data)
}

/// Data URL for a binary asset: the MIME type, then the Base64 encoding of
/// the content.
pub fn create_data_url(data: &[u8], mime_type: &str) -> (r: String)
    ensures
        r@ == "data:"@ + mime_type@ + ";base64,"@ + base64_of(data@),
{
    let mut r = String::from_str("data:");
    r.append(mime_type);
    r.append(";base64,");
    let encoded = base64_encode(data);
    r.append(encoded.as_str());
    proof {
        assert(r@ =~= "data:"@ + mime_type@ + ";base64,"@ + base64_of(data@));
    }
    r
}

} // verus!
