//! Lowercase hex rendering of raw byte payloads, and its inverse.
use vstd::prelude::*;
use vstd::string::StrSliceExecFns;

verus! {

/// The lowercase hex digit for a nibble value below sixteen.
pub open spec fn hex_digit(n: u8) -> char
    recommends
        n < 16,
{
    if n == 0 {
        '0'
    } else if n == 1 {
        '1'
    } else if n == 2 {
        '2'
    } else if n == 3 {
        '3'
    } else if n == 4 {
        '4'
    } else if n == 5 {
        '5'
    } else if n == 6 {
        '6'
    } else if n == 7 {
        '7'
    } else if n == 8 {
        '8'
    } else if n == 9 {
        '9'
    } else if n == 10 {
        'a'
    } else if n == 11 {
        'b'
    } else if n == 12 {
        'c'
    } else if n == 13 {
        'd'
    } else if n == 14 {
        'e'
    } else {
        'f'
    }
}

/// The nibble value of a lowercase hex digit, `None` for any other character.
pub open spec fn hex_val(c: char) -> Option<u8> {
    if c == '0' {
        Some(0u8)
    } else if c == '1' {
        Some(1u8)
    } else if c == '2' {
        Some(2u8)
    } else if c == '3' {
        Some(3u8)
    } else if c == '4' {
        Some(4u8)
    } else if c == '5' {
        Some(5u8)
    } else if c == '6' {
        Some(6u8)
    } else if c == '7' {
        Some(7u8)
    } else if c == '8' {
        Some(8u8)
    } else if c == '9' {
        Some(9u8)
    } else if c == 'a' {
        Some(10u8)
    } else if c == 'b' {
        Some(11u8)
    } else if c == 'c' {
        Some(12u8)
    } else if c == 'd' {
        Some(13u8)
    } else if c == 'e' {
        Some(14u8)
    } else if c == 'f' {
        Some(15u8)
    } else {
        None
    }
}

/// Lowercase hex encoding: two digits per byte, high nibble first.
pub open spec fn hex_of(b: Seq<u8>) -> Seq<char>
    decreases b.len(),
{
    if b.len() == 0 {
        Seq::empty()
    } else {
        seq![hex_digit((b[0] / 16) as u8), hex_digit((b[0] % 16) as u8)] + hex_of(b.drop_first())
    }
}

/// Inverse of `hex_of`: `None` on odd length or any non-hex-digit character.
pub open spec fn hex_decode_spec(s: Seq<char>) -> Option<Seq<u8>>
    decreases s.len(),
{
    if s.len() == 0 {
        Some(Seq::empty())
    } else if s.len() == 1 {
        None
    } else {
        match (hex_val(s[0]), hex_val(s[1])) {
            (Some(hi), Some(lo)) => match hex_decode_spec(s.skip(2)) {
                Some(rest) => Some(seq![(hi * 16 + lo) as u8] + rest),
                None => None,
            },
            _ => None,
        }
    }
}

/// Relies on `hex::encode`: it returns the lowercase hex encoding of the
/// bytes, two digits per byte, high nibble first.
#[verifier::external_body]
pub(crate) fn hex_encode(b: &Vec<u8>) -> (r: String)
    ensures
        r@ == hex_of(b@),
{
    hex::encode(b)
}

proof fn lemma_hex_val_digit(n: u8)
    requires
        n < 16,
    ensures
        hex_val(hex_digit(n)) == Some(n),
{
}

/// The length of a hex encoding is twice the byte count.
pub proof fn lemma_hex_of_len(b: Seq<u8>)
    ensures
        hex_of(b).len() == 2 * b.len(),
    decreases b.len(),
{
    if b.len() > 0 {
        lemma_hex_of_len(b.drop_first());
    }
}

/// Decoding a hex encoding gives back exactly the original bytes.
pub proof fn lemma_hex_round_trip(b: Seq<u8>)
    ensures
        hex_decode_spec(hex_of(b)) == Some(b),
    decreases b.len(),
{
    if b.len() == 0 {
        assert(hex_of(b) =~= Seq::<char>::empty());
        assert(Seq::<u8>::empty() =~= b);
    } else {
        let s = hex_of(b);
        lemma_hex_of_len(b.drop_first());
        assert(s.len() >= 2);
        let hi = (b[0] / 16) as u8;
        let lo = (b[0] % 16) as u8;
        lemma_hex_val_digit(hi);
        lemma_hex_val_digit(lo);
        assert(hex_val(s[0]) == Some(hi));
        assert(hex_val(s[1]) == Some(lo));
        assert(s.skip(2) =~= hex_of(b.drop_first()));
        lemma_hex_round_trip(b.drop_first());
        assert(hi * 16 + lo == b[0]);
        assert(seq![b[0]] + b.drop_first() =~= b);
    }
}

/// Decode a lowercase hex string to bytes; `None` on odd length or a
/// character that is no lowercase hex digit.
pub fn hex_decode(s: &str) -> (r: Option<Vec<u8>>)
    ensures
        r matches Some(v) ==> hex_decode_spec(s@) == Some(v@),
        r is None ==> hex_decode_spec(s@) is None,
{
    let n = s.unicode_len();
    if n % 2 != 0 {
        proof {
            lemma_decode_none_odd(s@);
        }
        return None;
    }
    let mut out: Vec<u8> = Vec::new();
    let mut i: usize = 0;
    proof {
        assert(s@.skip(0) =~= s@);
        if hex_decode_spec(s@) is Some {
            assert(Seq::<u8>::empty() + hex_decode_spec(s@)->Some_0 =~= hex_decode_spec(
                s@,
            )->Some_0);
        }
    }
    while i < n
        invariant
            n == s@.len(),
            n % 2 == 0,
            i % 2 == 0,
            i <= n,
            match hex_decode_spec(s@.skip(i as int)) {
                Some(rest) => hex_decode_spec(s@) == Some(out@ + rest),
                None => hex_decode_spec(s@) is None,
            },
        decreases n - i,
    {
        let c0 = s.get_char(i);
        let c1 = s.get_char(i + 1);
        proof {
            lemma_decode_unfold(s@, i as int);
        }
        let hi = match hex_val_exec(c0) {
            Some(v) => v,
            None => {
                return None;
            },
        };
        let lo = match hex_val_exec(c1) {
            Some(v) => v,
            None => {
                return None;
            },
        };
        let byte = hi * 16 + lo;
        proof {
            let prefix = out@;
            let tail = hex_decode_spec(s@.skip(i as int + 2));
            if tail is Some {
                let rest = tail->Some_0;
                assert((prefix + seq![byte]) + rest =~= prefix + (seq![byte] + rest));
            }
        }
        out.push(byte);
        i = i + 2;
    }
    proof {
        assert(s@.skip(n as int) =~= Seq::<char>::empty());
        assert(out@ + Seq::<u8>::empty() =~= out@);
    }
    Some(out)
}

/// Executable form of `hex_val`.
fn hex_val_exec(c: char) -> (r: Option<u8>)
    ensures
        r == hex_val(c),
        r matches Some(v) ==> v < 16,
{
    match c {
        '0' => Some(0),
        '1' => Some(1),
        '2' => Some(2),
        '3' => Some(3),
        '4' => Some(4),
        '5' => Some(5),
        '6' => Some(6),
        '7' => Some(7),
        '8' => Some(8),
        '9' => Some(9),
        'a' => Some(10),
        'b' => Some(11),
        'c' => Some(12),
        'd' => Some(13),
        'e' => Some(14),
        'f' => Some(15),
        _ => None,
    }
}

proof fn lemma_decode_none_odd(s: Seq<char>)
    requires
        s.len() % 2 == 1,
    ensures
        hex_decode_spec(s) is None,
    decreases s.len(),
{
    if s.len() > 1 {
        lemma_decode_none_odd(s.skip(2));
    }
}

proof fn lemma_decode_unfold(s: Seq<char>, i: int)
    requires
        0 <= i,
        i + 2 <= s.len(),
    ensures
        match (hex_val(s[i]), hex_val(s[i + 1])) {
            (Some(hi), Some(lo)) => match hex_decode_spec(s.skip(i + 2)) {
                Some(rest) => hex_decode_spec(s.skip(i)) == Some(
                    seq![(hi * 16 + lo) as u8] + rest,
                ),
                None => hex_decode_spec(s.skip(i)) is None,
            },
            _ => hex_decode_spec(s.skip(i)) is None,
        },
{
    let t = s.skip(i);
    assert(t.len() >= 2);
    assert(t[0] == s[i]);
    assert(t[1] == s[i + 1]);
    assert(t.skip(2) =~= s.skip(i + 2));
}

} // verus!
