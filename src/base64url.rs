use vstd::prelude::*;
use crate::terminal::push_char;

verus! {

/// The base64url digit of value `v` (`A`-`Z`, `a`-`z`, `0`-`9`, `-`, `_`).
pub open spec fn digit(v: nat) -> char {
    if v < 26 {
        ((v + 65) as u8) as char
    } else if v < 52 {
        ((v - 26 + 97) as u8) as char
    } else if v < 62 {
        ((v - 52 + 48) as u8) as char
    } else if v == 62 {
        '-'
    } else {
        '_'
    }
}

/// The value of a base64url digit, if `c` is one.
pub open spec fn digit_value(c: char) -> Option<nat> {
    if 'A' <= c && c <= 'Z' {
        Some((c as nat - 65) as nat)
    } else if 'a' <= c && c <= 'z' {
        Some((c as nat - 97 + 26) as nat)
    } else if '0' <= c && c <= '9' {
        Some((c as nat - 48 + 52) as nat)
    } else if c == '-' {
        Some(62)
    } else if c == '_' {
        Some(63)
    } else {
        None
    }
}

/// base64url of `d`, without padding: each 3 bytes give 4 digits, a last
/// 2 bytes give 3 and a last byte gives 2, missing bits being zero.
pub open spec fn encode_spec(d: Seq<u8>) -> Seq<char>
    decreases d.len(),
{
    if d.len() == 0 {
        Seq::empty()
    } else if d.len() == 1 {
        seq![digit(d[0] as nat / 4), digit((d[0] as nat % 4) * 16)]
    } else if d.len() == 2 {
        seq![
            digit(d[0] as nat / 4),
            digit((d[0] as nat % 4) * 16 + d[1] as nat / 16),
            digit((d[1] as nat % 16) * 4),
        ]
    } else {
        seq![
            digit(d[0] as nat / 4),
            digit((d[0] as nat % 4) * 16 + d[1] as nat / 16),
            digit((d[1] as nat % 16) * 4 + d[2] as nat / 64),
            digit(d[2] as nat % 64),
        ] + encode_spec(d.subrange(3, d.len() as int))
    }
}

/// The bytes that base64url digits of values `v` stand for: each 4 digits give
/// 3 bytes, a last 3 give 2, a last 2 give 1; a last single digit holds less
/// than a byte and gives none.
pub open spec fn decode_values(v: Seq<nat>) -> Seq<u8>
    decreases v.len(),
{
    if v.len() < 2 {
        Seq::empty()
    } else if v.len() == 2 {
        seq![(v[0] * 4 + v[1] / 16) as u8]
    } else if v.len() == 3 {
        seq![(v[0] * 4 + v[1] / 16) as u8, ((v[1] % 16) * 16 + v[2] / 4) as u8]
    } else {
        seq![
            (v[0] * 4 + v[1] / 16) as u8,
            ((v[1] % 16) * 16 + v[2] / 4) as u8,
            ((v[2] % 4) * 64 + v[3]) as u8,
        ] + decode_values(v.subrange(4, v.len() as int))
    }
}

/// Whether every character of `s` is a base64url digit.
pub open spec fn all_digits(s: Seq<char>) -> bool {
    forall|i: int| 0 <= i < s.len() ==> (#[trigger] digit_value(s[i])) is Some
}

/// The bytes that `s` encodes, or `None` when a character of `s` is no digit.
pub open spec fn decode_spec(s: Seq<char>) -> Option<Seq<u8>> {
    if all_digits(s) {
        Some(decode_values(s.map_values(|c: char| digit_value(c)->0)))
    } else {
        None
    }
}

fn digit_exec(v: u8) -> (r: char)
    requires
        v < 64,
    ensures
        r == digit(v as nat),
{
    if v < 26 {
        (v + 65) as char
    } else if v < 52 {
        (v - 26 + 97) as char
    } else if v < 62 {
        (v - 52 + 48) as char
    } else if v == 62 {
        '-'
    } else {
        '_'
    }
}

fn digit_value_exec(c: char) -> (r: Option<u8>)
    ensures
        r matches Some(v) ==> digit_value(c) == Some(v as nat) && v < 64,
        r is None ==> digit_value(c) is None,
{
    if 'A' <= c && c <= 'Z' {
        Some((c as u32 - 65) as u8)
    } else if 'a' <= c && c <= 'z' {
        Some((c as u32 - 97 + 26) as u8)
    } else if '0' <= c && c <= '9' {
        Some((c as u32 - 48 + 52) as u8)
    } else if c == '-' {
        Some(62)
    } else if c == '_' {
        Some(63)
    } else {
        None
    }
}

/// Encode a byte slice into a base64url string.
pub fn encode(data: &[u8]) -> (r: String)
    ensures
        r@ == encode_spec(data@),
{
    let ghost d = data@;
    let n = data.len();
    let mut out = String::new();
    let mut i: usize = 0;
    assert(d.subrange(0, n as int) =~= d);
    assert(out@ + encode_spec(d) =~= encode_spec(d));
    while n - i >= 3
        invariant
            n == d.len(),
            d == data@,
            i <= n,
            out@ + encode_spec(d.subrange(i as int, n as int)) == encode_spec(d),
        decreases n - i,
    {
        let a = data[i];
        let b = data[i + 1];
        let c = data[i + 2];
        let ghost before = out@;
        push_char(&mut out, digit_exec(a / 4));
        push_char(&mut out, digit_exec((a % 4) * 16 + b / 16));
        push_char(&mut out, digit_exec((b % 16) * 4 + c / 64));
        push_char(&mut out, digit_exec(c % 64));
        proof {
            let rest = d.subrange(i as int, n as int);
            assert(rest.subrange(3, rest.len() as int) =~= d.subrange(i + 3, n as int));
            assert(out@ =~= before + encode_spec(rest).subrange(0, 4));
            assert(encode_spec(rest) =~= encode_spec(rest).subrange(0, 4) + encode_spec(d.subrange(i + 3, n as int)));
        }
        i += 3;
    }
    let ghost before = out@;
    let ghost rest = d.subrange(i as int, n as int);
    if n - i == 1 {
        let a = data[i];
        push_char(&mut out, digit_exec(a / 4));
        push_char(&mut out, digit_exec((a % 4) * 16));
        assert(out@ =~= before + encode_spec(rest));
    } else if n - i == 2 {
        let a = data[i];
        let b = data[i + 1];
        push_char(&mut out, digit_exec(a / 4));
        push_char(&mut out, digit_exec((a % 4) * 16 + b / 16));
        push_char(&mut out, digit_exec((b % 16) * 4));
        assert(out@ =~= before + encode_spec(rest));
    } else {
        assert(rest.len() == 0);
        assert(out@ =~= before + encode_spec(rest));
    }
    out
}

/// Decode a base64url string into a byte vector; `Err` when a character is no
/// base64url digit.
pub fn decode(encoded: &str) -> (r: Result<Vec<u8>, ()>)
    ensures
        decode_spec(encoded@) matches Some(b) ==> r matches Ok(v) && v@ == b,
        decode_spec(encoded@) is None ==> r is Err,
{
    let ghost s = encoded@;
    let n = encoded.unicode_len();
    let mut values: Vec<u8> = Vec::new();
    let mut i: usize = 0;
    while i < n
        invariant
            n == s.len(),
            s == encoded@,
            i <= n,
            values@.len() == i,
            forall|j: int| 0 <= j < i ==> digit_value(#[trigger] s[j]) == Some(values@[j] as nat),
            forall|j: int| 0 <= j < i ==> #[trigger] values@[j] < 64,
        decreases n - i,
    {
        match digit_value_exec(encoded.get_char(i)) {
            Some(v) => values.push(v),
            None => {
                return Err(());
            },
        }
        i += 1;
    }
    let ghost vs = s.map_values(|c: char| digit_value(c)->0);
    assert(vs =~= values@.map_values(|v: u8| v as nat));
    let mut out: Vec<u8> = Vec::new();
    let mut k: usize = 0;
    assert(vs.subrange(0, n as int) =~= vs);
    assert(out@ + decode_values(vs) =~= decode_values(vs));
    while n - k >= 4
        invariant
            n == values@.len(),
            k <= n,
            vs == values@.map_values(|v: u8| v as nat),
            forall|j: int| 0 <= j < n ==> #[trigger] values@[j] < 64,
            out@ + decode_values(vs.subrange(k as int, n as int)) == decode_values(vs),
        decreases n - k,
    {
        let a = values[k];
        let b = values[k + 1];
        let c = values[k + 2];
        let d = values[k + 3];
        let ghost before = out@;
        out.push(a * 4 + b / 16);
        out.push((b % 16) * 16 + c / 4);
        out.push((c % 4) * 64 + d);
        proof {
            let rest = vs.subrange(k as int, n as int);
            assert(rest.subrange(4, rest.len() as int) =~= vs.subrange(k + 4, n as int));
            assert(out@ =~= before + decode_values(rest).subrange(0, 3));
            assert(decode_values(rest) =~= decode_values(rest).subrange(0, 3) + decode_values(
                vs.subrange(k + 4, n as int),
            ));
        }
        k += 4;
    }
    let ghost before = out@;
    let ghost rest = vs.subrange(k as int, n as int);
    if n - k == 2 {
        let a = values[k];
        let b = values[k + 1];
        out.push(a * 4 + b / 16);
        assert(out@ =~= before + decode_values(rest));
    } else if n - k == 3 {
        let a = values[k];
        let b = values[k + 1];
        let c = values[k + 2];
        out.push(a * 4 + b / 16);
        out.push((b % 16) * 16 + c / 4);
        assert(out@ =~= before + decode_values(rest));
    } else {
        assert(rest.len() < 2);
        assert(out@ =~= before + decode_values(rest));
    }
    Ok(out)
}


proof fn lemma_digit_value_of_digit(v: nat)
    requires
        v < 64,
    ensures
        digit_value(digit(v)) == Some(v),
{
}

proof fn lemma_group(a: nat, b: nat, c: nat)
    requires
        a < 256,
        b < 256,
        c < 256,
    ensures
        (a / 4) * 4 + ((a % 4) * 16 + b / 16) / 16 == a,
        (((a % 4) * 16 + b / 16) % 16) * 16 + ((b % 16) * 4 + c / 64) / 4 == b,
        (((b % 16) * 4 + c / 64) % 4) * 64 + c % 64 == c,
        ((a % 4) * 16 + b / 16) < 64,
        ((b % 16) * 4 + c / 64) < 64,
{
}

/// The values of the digits of `encode_spec(d)`.
spec fn values_of(s: Seq<char>) -> Seq<nat> {
    s.map_values(|c: char| digit_value(c)->0)
}

proof fn lemma_round_trip_values(d: Seq<u8>)
    ensures
        all_digits(encode_spec(d)),
        decode_values(values_of(encode_spec(d))) == d,
    decreases d.len(),
{
    let e = encode_spec(d);
    if d.len() == 0 {
        assert(d =~= Seq::<u8>::empty());
    } else if d.len() == 1 {
        lemma_group(d[0] as nat, 0, 0);
        lemma_digit_value_of_digit(d[0] as nat / 4);
        lemma_digit_value_of_digit((d[0] as nat % 4) * 16);
        assert(decode_values(values_of(e)) =~= d);
    } else if d.len() == 2 {
        lemma_group(d[0] as nat, d[1] as nat, 0);
        lemma_digit_value_of_digit(d[0] as nat / 4);
        lemma_digit_value_of_digit((d[0] as nat % 4) * 16 + d[1] as nat / 16);
        lemma_digit_value_of_digit((d[1] as nat % 16) * 4);
        assert(decode_values(values_of(e)) =~= d);
    } else {
        let rest = d.subrange(3, d.len() as int);
        lemma_round_trip_values(rest);
        lemma_group(d[0] as nat, d[1] as nat, d[2] as nat);
        lemma_digit_value_of_digit(d[0] as nat / 4);
        lemma_digit_value_of_digit((d[0] as nat % 4) * 16 + d[1] as nat / 16);
        lemma_digit_value_of_digit((d[1] as nat % 16) * 4 + d[2] as nat / 64);
        lemma_digit_value_of_digit(d[2] as nat % 64);
        let v = values_of(e);
        assert(v.subrange(4, v.len() as int) =~= values_of(encode_spec(rest)));
        assert forall|i: int| 0 <= i < e.len() implies (#[trigger] digit_value(e[i])) is Some by {
            if i >= 4 {
                assert(e[i] == encode_spec(rest)[i - 4]);
            }
        }
        assert(decode_values(v) =~= d);
    }
}

/// Decoding what `encode` gives returns the bytes encoded.
pub proof fn lemma_round_trip(d: Seq<u8>)
    ensures
        decode_spec(encode_spec(d)) == Some(d),
{
    lemma_round_trip_values(d);
}

} // verus!
