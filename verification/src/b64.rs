//! The URL-safe base64 alphabet without padding, as token segments use it:
//! encoding of arbitrary bytes, strict decoding that accepts only canonical
//! text (no padding, no set trailing bits), and the proof that decoding
//! undoes encoding.

use vstd::prelude::*;

verus! {

/// The alphabet: `A`-`Z`, `a`-`z`, `0`-`9`, `-`, `_`.
pub open spec fn b64_char(v: u8) -> u8 {
    if v < 26 {
        (0x41 + v) as u8
    } else if v < 52 {
        (0x47 + v) as u8
    } else if v < 62 {
        (v - 4) as u8
    } else if v == 62 {
        0x2d
    } else {
        0x5f
    }
}

/// The value of an alphabet character, `None` outside the alphabet.
pub open spec fn b64_val(b: u8) -> Option<u8> {
    if 0x41 <= b <= 0x5a {
        Some((b - 0x41) as u8)
    } else if 0x61 <= b <= 0x7a {
        Some((b - 0x47) as u8)
    } else if 0x30 <= b <= 0x39 {
        Some((b + 4) as u8)
    } else if b == 0x2d {
        Some(62u8)
    } else if b == 0x5f {
        Some(63u8)
    } else {
        None
    }
}

/// The unpadded base64url text of `s`, three bytes to four characters.
pub open spec fn spec_b64(s: Seq<u8>) -> Seq<u8>
    decreases s.len(),
{
    if s.len() == 0 {
        Seq::<u8>::empty()
    } else if s.len() == 1 {
        seq![b64_char((s[0] >> 2) as u8), b64_char(((s[0] & 3) << 4) as u8)]
    } else if s.len() == 2 {
        seq![
            b64_char((s[0] >> 2) as u8),
            b64_char((((s[0] & 3) << 4) | (s[1] >> 4)) as u8),
            b64_char(((s[1] & 0xf) << 2) as u8),
        ]
    } else {
        seq![
            b64_char((s[0] >> 2) as u8),
            b64_char((((s[0] & 3) << 4) | (s[1] >> 4)) as u8),
            b64_char(((((s[1] & 0xf) << 2) as u8) | (s[2] >> 6)) as u8),
            b64_char((s[2] & 0x3f) as u8),
        ] + spec_b64(s.skip(3))
    }
}

/// The bytes a base64url text denotes: only canonical text — length not 1
/// modulo 4, no character outside the alphabet, no set trailing bits — is
/// accepted.
pub open spec fn spec_b64_decode(s: Seq<u8>) -> Option<Seq<u8>>
    decreases s.len(),
{
    if s.len() == 0 {
        Some(Seq::<u8>::empty())
    } else if s.len() == 1 {
        None
    } else if s.len() == 2 {
        match (b64_val(s[0]), b64_val(s[1])) {
            (Some(v0), Some(v1)) => if v1 & 0xf == 0 {
                Some(seq![(((v0 << 2) as u8) | (v1 >> 4)) as u8])
            } else {
                None
            },
            _ => None,
        }
    } else if s.len() == 3 {
        match (b64_val(s[0]), b64_val(s[1]), b64_val(s[2])) {
            (Some(v0), Some(v1), Some(v2)) => if v2 & 0x3 == 0 {
                Some(
                    seq![
                        (((v0 << 2) as u8) | (v1 >> 4)) as u8,
                        ((((v1 & 0xf) << 4) as u8) | (v2 >> 2)) as u8,
                    ],
                )
            } else {
                None
            },
            _ => None,
        }
    } else {
        match (b64_val(s[0]), b64_val(s[1]), b64_val(s[2]), b64_val(s[3])) {
            (Some(v0), Some(v1), Some(v2), Some(v3)) => match spec_b64_decode(s.skip(4)) {
                Some(rest) => Some(
                    seq![
                        (((v0 << 2) as u8) | (v1 >> 4)) as u8,
                        ((((v1 & 0xf) << 4) as u8) | (v2 >> 2)) as u8,
                        ((((v2 & 0x3) << 6) as u8) | v3) as u8,
                    ] + rest,
                ),
                None => None,
            },
            _ => None,
        }
    }
}

/// The alphabet character of a value below 64.
pub fn b64_char_exec(v: u8) -> (r: u8)
    requires
        v < 64,
    ensures
        r == b64_char(v),
{
    if v < 26 {
        0x41 + v
    } else if v < 52 {
        0x47 + v
    } else if v < 62 {
        v - 4
    } else if v == 62 {
        0x2d
    } else {
        0x5f
    }
}

/// The value of an alphabet character.
pub fn b64_val_exec(b: u8) -> (r: Option<u8>)
    ensures
        r == b64_val(b),
{
    if 0x41 <= b && b <= 0x5a {
        Some(b - 0x41)
    } else if 0x61 <= b && b <= 0x7a {
        Some(b - 0x47)
    } else if 0x30 <= b && b <= 0x39 {
        Some(b + 4)
    } else if b == 0x2d {
        Some(62)
    } else if b == 0x5f {
        Some(63)
    } else {
        None
    }
}

/// Encodes `s` as unpadded base64url.
pub fn b64_encode(s: &[u8]) -> (r: Vec<u8>)
    ensures
        r@ == spec_b64(s@),
{
    let n = s.len();
    let mut out: Vec<u8> = Vec::new();
    let mut i: usize = 0;
    proof {
        assert(s@.skip(0) =~= s@);
        assert(out@ + spec_b64(s@.skip(0)) =~= spec_b64(s@));
    }
    while n - i >= 3
        invariant
            0 <= i <= n,
            i % 3 == 0,
            n == s@.len(),
            spec_b64(s@) == out@ + spec_b64(s@.skip(i as int)),
        decreases n - i,
    {
        let b0 = s[i];
        let b1 = s[i + 1];
        let b2 = s[i + 2];
        proof {
            lemma_vals_in_range(b0, b1, b2);
            assert(s@.skip(i as int)[0] == b0);
            assert(s@.skip(i as int)[1] == b1);
            assert(s@.skip(i as int)[2] == b2);
            assert(s@.skip(i as int).skip(3) =~= s@.skip(i as int + 3));
        }
        out.push(b64_char_exec(b0 >> 2));
        out.push(b64_char_exec(((b0 & 3) << 4) | (b1 >> 4)));
        out.push(b64_char_exec(((b1 & 0xf) << 2) | (b2 >> 6)));
        out.push(b64_char_exec(b2 & 0x3f));
        i += 3;
    }
    if n - i == 1 {
        let b0 = s[i];
        proof {
            lemma_vals_in_range(b0, 0, 0);
            assert(s@.skip(i as int)[0] == b0);
            assert(s@.skip(i as int).len() == 1);
        }
        out.push(b64_char_exec(b0 >> 2));
        out.push(b64_char_exec((b0 & 3) << 4));
    } else if n - i == 2 {
        let b0 = s[i];
        let b1 = s[i + 1];
        proof {
            lemma_vals_in_range(b0, b1, 0);
            assert(s@.skip(i as int)[0] == b0);
            assert(s@.skip(i as int)[1] == b1);
            assert(s@.skip(i as int).len() == 2);
        }
        out.push(b64_char_exec(b0 >> 2));
        out.push(b64_char_exec(((b0 & 3) << 4) | (b1 >> 4)));
        out.push(b64_char_exec((b1 & 0xf) << 2));
    } else {
        proof {
            assert(s@.skip(i as int).len() == 0);
        }
    }
    proof {
        assert(out@ =~= spec_b64(s@));
    }
    out
}

/// Decodes canonical unpadded base64url, refusing anything else.
pub fn b64_decode(s: &[u8]) -> (r: Option<Vec<u8>>)
    ensures
        match r {
            Some(v) => spec_b64_decode(s@) == Some(v@),
            None => spec_b64_decode(s@) is None,
        },
{
    let n = s.len();
    let mut out: Vec<u8> = Vec::new();
    let mut i: usize = 0;
    proof {
        assert(s@.skip(0) =~= s@);
        match spec_b64_decode(s@) {
            Some(rest) => {
                assert(out@ + rest =~= rest);
            },
            None => {},
        }
    }
    while n - i >= 4
        invariant
            0 <= i <= n,
            i % 4 == 0,
            n == s@.len(),
            match spec_b64_decode(s@.skip(i as int)) {
                Some(rest) => spec_b64_decode(s@) == Some(out@ + rest),
                None => spec_b64_decode(s@) is None,
            },
        decreases n - i,
    {
        proof {
            assert(s@.skip(i as int)[0] == s@[i as int]);
            assert(s@.skip(i as int)[1] == s@[i as int + 1]);
            assert(s@.skip(i as int)[2] == s@[i as int + 2]);
            assert(s@.skip(i as int)[3] == s@[i as int + 3]);
            assert(s@.skip(i as int).skip(4) =~= s@.skip(i as int + 4));
        }
        let v0 = match b64_val_exec(s[i]) {
            Some(v) => v,
            None => {
                return None;
            },
        };
        let v1 = match b64_val_exec(s[i + 1]) {
            Some(v) => v,
            None => {
                return None;
            },
        };
        let v2 = match b64_val_exec(s[i + 2]) {
            Some(v) => v,
            None => {
                return None;
            },
        };
        let v3 = match b64_val_exec(s[i + 3]) {
            Some(v) => v,
            None => {
                return None;
            },
        };
        out.push((v0 << 2) | (v1 >> 4));
        out.push(((v1 & 0xf) << 4) | (v2 >> 2));
        out.push(((v2 & 0x3) << 6) | v3);
        i += 4;
    }
    if n - i == 1 {
        proof {
            assert(spec_b64_decode(s@.skip(i as int)) is None);
        }
        return None;
    }
    if n - i == 2 {
        proof {
            assert(s@.skip(i as int)[0] == s@[i as int]);
            assert(s@.skip(i as int)[1] == s@[i as int + 1]);
        }
        let v0 = match b64_val_exec(s[i]) {
            Some(v) => v,
            None => {
                return None;
            },
        };
        let v1 = match b64_val_exec(s[i + 1]) {
            Some(v) => v,
            None => {
                return None;
            },
        };
        if v1 & 0xf != 0 {
            return None;
        }
        out.push((v0 << 2) | (v1 >> 4));
        proof {
            assert(out@ =~= out@.drop_last().push(out@.last()));
        }
    } else if n - i == 3 {
        proof {
            assert(s@.skip(i as int)[0] == s@[i as int]);
            assert(s@.skip(i as int)[1] == s@[i as int + 1]);
            assert(s@.skip(i as int)[2] == s@[i as int + 2]);
        }
        let v0 = match b64_val_exec(s[i]) {
            Some(v) => v,
            None => {
                return None;
            },
        };
        let v1 = match b64_val_exec(s[i + 1]) {
            Some(v) => v,
            None => {
                return None;
            },
        };
        let v2 = match b64_val_exec(s[i + 2]) {
            Some(v) => v,
            None => {
                return None;
            },
        };
        if v2 & 0x3 != 0 {
            return None;
        }
        out.push((v0 << 2) | (v1 >> 4));
        out.push(((v1 & 0xf) << 4) | (v2 >> 2));
    }
    proof {
        assert(s@.skip(i as int).len() != 1);
        if s@.skip(i as int).len() == 0 {
            assert(spec_b64_decode(s@.skip(i as int)) == Some(Seq::<u8>::empty()));
            assert(out@ + Seq::<u8>::empty() =~= out@);
        }
        match spec_b64_decode(s@.skip(i as int)) {
            Some(rest) => {
                assert(spec_b64_decode(s@) == Some(out@));
            },
            None => {
                assert(false);
            },
        }
    }
    Some(out)
}

/// The four values of one encoded chunk stay below 64.
proof fn lemma_vals_in_range(b0: u8, b1: u8, b2: u8)
    ensures
        (b0 >> 2) < 64,
        (((b0 & 3) << 4) | (b1 >> 4)) < 64,
        ((((b1 & 0xf) << 2) as u8) | (b2 >> 6)) < 64,
        (b2 & 0x3f) < 64,
        ((b0 & 3) << 4) < 64,
        ((b1 & 0xf) << 2) < 64,
{
    assert((b0 >> 2) < 64 && (((b0 & 3) << 4) | (b1 >> 4)) < 64 && ((((b1 & 0xf) << 2) as u8) | (b2
        >> 6)) < 64 && (b2 & 0x3f) < 64 && ((b0 & 3) << 4) < 64 && ((b1 & 0xf) << 2) < 64)
        by (bit_vector);
}

/// Character encoding and value reading cancel out.
proof fn lemma_b64_char_val(v: u8)
    requires
        v < 64,
    ensures
        b64_val(b64_char(v)) == Some(v),
{
}

/// Decoding one full chunk's characters reconstructs its three bytes.
proof fn lemma_chunk3_round_trip(b0: u8, b1: u8, b2: u8)
    ensures
        ((((b0 >> 2) << 2) as u8) | ((((b0 & 3) << 4) | (b1 >> 4)) >> 4)) == b0,
        (((((((b0 & 3) << 4) | (b1 >> 4)) & 0xf) << 4) as u8) | (((((b1 & 0xf) << 2) as u8) | (b2
            >> 6)) >> 2)) == b1,
        ((((((((b1 & 0xf) << 2) as u8) | (b2 >> 6)) & 0x3) << 6) as u8) | (b2 & 0x3f)) == b2,
{
    assert(((((b0 >> 2) << 2) as u8) | ((((b0 & 3) << 4) | (b1 >> 4)) >> 4)) == b0 && (((((((b0 & 3)
        << 4) | (b1 >> 4)) & 0xf) << 4) as u8) | (((((b1 & 0xf) << 2) as u8) | (b2 >> 6)) >> 2))
        == b1 && ((((((((b1 & 0xf) << 2) as u8) | (b2 >> 6)) & 0x3) << 6) as u8) | (b2 & 0x3f))
        == b2) by (bit_vector);
}

/// Decoding a one-byte tail's characters reconstructs the byte, and its
/// trailing bits are clear.
proof fn lemma_tail1_round_trip(b0: u8)
    ensures
        (((b0 & 3) << 4) & 0xf) == 0,
        ((((b0 >> 2) << 2) as u8) | (((b0 & 3) << 4) >> 4)) == b0,
{
    assert((((b0 & 3) << 4) & 0xf) == 0 && ((((b0 >> 2) << 2) as u8) | (((b0 & 3) << 4) >> 4))
        == b0) by (bit_vector);
}

/// Decoding a two-byte tail's characters reconstructs both bytes, and its
/// trailing bits are clear.
proof fn lemma_tail2_round_trip(b0: u8, b1: u8)
    ensures
        (((b1 & 0xf) << 2) & 0x3) == 0,
        ((((b0 >> 2) << 2) as u8) | ((((b0 & 3) << 4) | (b1 >> 4)) >> 4)) == b0,
        (((((((b0 & 3) << 4) | (b1 >> 4)) & 0xf) << 4) as u8) | (((b1 & 0xf) << 2) >> 2)) == b1,
{
    assert((((b1 & 0xf) << 2) & 0x3) == 0 && ((((b0 >> 2) << 2) as u8) | ((((b0 & 3) << 4) | (b1
        >> 4)) >> 4)) == b0 && (((((((b0 & 3) << 4) | (b1 >> 4)) & 0xf) << 4) as u8) | (((b1 & 0xf)
        << 2) >> 2)) == b1) by (bit_vector);
}

/// Decoding undoes encoding: every byte string's base64url text reads back
/// as exactly that byte string.
pub proof fn lemma_b64_round_trip(s: Seq<u8>)
    ensures
        spec_b64_decode(spec_b64(s)) == Some(s),
    decreases s.len(),
{
    let e = spec_b64(s);
    if s.len() == 0 {
        assert(e =~= Seq::<u8>::empty());
        assert(Seq::<u8>::empty() =~= s);
    } else if s.len() == 1 {
        lemma_vals_in_range(s[0], 0, 0);
        lemma_b64_char_val((s[0] >> 2) as u8);
        lemma_b64_char_val(((s[0] & 3) << 4) as u8);
        lemma_tail1_round_trip(s[0]);
        assert(spec_b64_decode(e) matches Some(d) && d =~= s);
    } else if s.len() == 2 {
        lemma_vals_in_range(s[0], s[1], 0);
        lemma_b64_char_val((s[0] >> 2) as u8);
        lemma_b64_char_val((((s[0] & 3) << 4) | (s[1] >> 4)) as u8);
        lemma_b64_char_val(((s[1] & 0xf) << 2) as u8);
        lemma_tail2_round_trip(s[0], s[1]);
        assert(spec_b64_decode(e) matches Some(d) && d =~= s);
    } else {
        lemma_vals_in_range(s[0], s[1], s[2]);
        lemma_b64_char_val((s[0] >> 2) as u8);
        lemma_b64_char_val((((s[0] & 3) << 4) | (s[1] >> 4)) as u8);
        lemma_b64_char_val((((((s[1] & 0xf) << 2) as u8) | (s[2] >> 6))) as u8);
        lemma_b64_char_val((s[2] & 0x3f) as u8);
        lemma_chunk3_round_trip(s[0], s[1], s[2]);
        lemma_b64_round_trip(s.skip(3));
        let chunk = seq![
            b64_char((s[0] >> 2) as u8),
            b64_char((((s[0] & 3) << 4) | (s[1] >> 4)) as u8),
            b64_char(((((s[1] & 0xf) << 2) as u8) | (s[2] >> 6)) as u8),
            b64_char((s[2] & 0x3f) as u8),
        ];
        let rest = spec_b64(s.skip(3));
        assert(e == chunk + rest);
        assert(e[0] == chunk[0] && e[1] == chunk[1] && e[2] == chunk[2] && e[3] == chunk[3]);
        assert(e.skip(4) =~= rest);
        assert(e.len() >= 4) by {
            lemma_b64_len(s.skip(3));
        }
        match spec_b64_decode(e) {
            Some(d) => {
                assert(d =~= s);
            },
            None => {
                assert(false);
            },
        }
    }
}

/// Every byte of encoded text belongs to the alphabet.
pub proof fn lemma_b64_alphabet(s: Seq<u8>)
    ensures
        forall|k: int| 0 <= k < spec_b64(s).len() ==> #[trigger] b64_val(spec_b64(s)[k]) is Some,
    decreases s.len(),
{
    if s.len() >= 3 {
        lemma_b64_alphabet(s.skip(3));
        assert forall|k: int| 0 <= k < spec_b64(s).len() implies #[trigger] b64_val(
            spec_b64(s)[k],
        ) is Some by {
            if k >= 4 {
                assert(spec_b64(s)[k] == spec_b64(s.skip(3))[k - 4]);
            }
        }
    }
}

/// Encoded text is never one character long — or one past a multiple of
/// four.
pub proof fn lemma_b64_len(s: Seq<u8>)
    ensures
        spec_b64(s).len() == (s.len() / 3) * 4 + (if s.len() % 3 == 0 {
            0int
        } else if s.len() % 3 == 1 {
            2int
        } else {
            3int
        }),
    decreases s.len(),
{
    if s.len() >= 3 {
        lemma_b64_len(s.skip(3));
    }
}

} // verus!
