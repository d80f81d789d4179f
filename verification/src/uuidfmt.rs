//! Tenant and user identifiers are 128-bit values carried in text as
//! hyphenated hexadecimal (8-4-4-4-12). Formatting emits the canonical
//! lowercase form; parsing accepts either case in the hyphenated, plain
//! 32-digit, braced and URN forms, and round-trips whatever formatting
//! produced.

use vstd::prelude::*;

verus! {

/// The positions of the four hyphens in the hyphenated form.
pub open spec fn uuid_hyphen_pos(i: int) -> bool {
    i == 8 || i == 13 || i == 18 || i == 23
}

/// How many of the 32 hex digits precede position `i` of the hyphenated
/// form.
pub open spec fn uuid_nib_index(i: int) -> int {
    if i <= 8 {
        i
    } else if i <= 13 {
        i - 1
    } else if i <= 18 {
        i - 2
    } else if i <= 23 {
        i - 3
    } else {
        i - 4
    }
}

/// The `k`-th hex digit of `u`, counted from the most significant.
pub open spec fn uuid_nibble(u: u128, k: int) -> u8 {
    ((u >> ((124 - 4 * k) as u128)) & 0xf) as u8
}

/// The lowercase hex character of one digit value.
pub open spec fn hex_char_of(n: u8) -> u8 {
    if n < 10 {
        (0x30 + n) as u8
    } else {
        (0x57 + n) as u8
    }
}

/// The digit value of a hex character of either case.
pub open spec fn hex_val(b: u8) -> Option<u8> {
    if 0x30 <= b <= 0x39 {
        Some((b - 0x30) as u8)
    } else if 0x61 <= b <= 0x66 {
        Some((b - 0x57) as u8)
    } else if 0x41 <= b <= 0x46 {
        Some((b - 0x37) as u8)
    } else {
        None
    }
}

/// The canonical lowercase hyphenated text of `u`.
pub open spec fn spec_uuid_str(u: u128) -> Seq<u8> {
    Seq::new(
        36,
        |i: int|
            if uuid_hyphen_pos(i) {
                0x2d
            } else {
                hex_char_of(uuid_nibble(u, uuid_nib_index(i)))
            },
    )
}

/// Parsing the hyphenated form from position `i` on, with `acc` holding the
/// digits already read.
pub open spec fn spec_parse_uuid_rec(s: Seq<u8>, i: int, acc: u128) -> Option<u128>
    decreases 36 - i,
    when 0 <= i <= 36
{
    if i >= 36 {
        Some(acc)
    } else if uuid_hyphen_pos(i) {
        if s[i] == 0x2d {
            spec_parse_uuid_rec(s, i + 1, acc)
        } else {
            None
        }
    } else {
        match hex_val(s[i]) {
            Some(v) => spec_parse_uuid_rec(s, i + 1, ((acc << 4) | v as u128) as u128),
            None => None,
        }
    }
}

/// Parsing the plain 32-digit form from position `i` on.
pub open spec fn spec_parse_uuid_simple_rec(s: Seq<u8>, i: int, acc: u128) -> Option<u128>
    decreases 32 - i,
    when 0 <= i <= 32
{
    if i >= 32 {
        Some(acc)
    } else {
        match hex_val(s[i]) {
            Some(v) => spec_parse_uuid_simple_rec(s, i + 1, ((acc << 4) | v as u128) as u128),
            None => None,
        }
    }
}

/// A `urn:uuid:` prefix, in either case.
pub open spec fn spec_urn_prefix(s: Seq<u8>) -> bool {
    &&& (s[0] == 0x75 || s[0] == 0x55)
    &&& (s[1] == 0x72 || s[1] == 0x52)
    &&& (s[2] == 0x6e || s[2] == 0x4e)
    &&& s[3] == 0x3a
    &&& (s[4] == 0x75 || s[4] == 0x55)
    &&& (s[5] == 0x75 || s[5] == 0x55)
    &&& (s[6] == 0x69 || s[6] == 0x49)
    &&& (s[7] == 0x64 || s[7] == 0x44)
    &&& s[8] == 0x3a
}

/// The identifier a piece of text denotes: 36 bytes are read as the
/// hyphenated form, 32 bytes as the plain form, 38 bytes as the hyphenated
/// form in braces, 45 bytes as a `urn:uuid:` prefix before the hyphenated
/// form; anything else is refused.
pub open spec fn spec_parse_uuid(s: Seq<u8>) -> Option<u128> {
    if s.len() == 36 {
        spec_parse_uuid_rec(s, 0, 0)
    } else if s.len() == 32 {
        spec_parse_uuid_simple_rec(s, 0, 0)
    } else if s.len() == 38 {
        if s[0] == 0x7b && s[37] == 0x7d {
            spec_parse_uuid_rec(s.subrange(1, 37), 0, 0)
        } else {
            None
        }
    } else if s.len() == 45 {
        if spec_urn_prefix(s) {
            spec_parse_uuid_rec(s.subrange(9, 45), 0, 0)
        } else {
            None
        }
    } else {
        None
    }
}

/// The canonical text of `u`, as bytes.
pub fn format_uuid(u: u128) -> (r: Vec<u8>)
    ensures
        r@ == spec_uuid_str(u),
        r@.len() == 36,
{
    let mut out: Vec<u8> = Vec::new();
    let mut i: usize = 0;
    while i < 36
        invariant
            0 <= i <= 36,
            out@.len() == i,
            forall|j: int| 0 <= j < i ==> out@[j] == spec_uuid_str(u)[j],
        decreases 36 - i,
    {
        if i == 8 || i == 13 || i == 18 || i == 23 {
            out.push(0x2d);
        } else {
            let k: usize = if i < 8 {
                i
            } else if i < 13 {
                i - 1
            } else if i < 18 {
                i - 2
            } else if i < 23 {
                i - 3
            } else {
                i - 4
            };
            let sh: u32 = (124 - 4 * k) as u32;
            let nib: u8 = ((u >> sh as u128) & 0xf) as u8;
            proof {
                let sh128: u128 = sh as u128;
                assert(((u >> sh128) & 0xf) < 16) by (bit_vector);
                assert(sh128 == (124 - 4 * uuid_nib_index(i as int)) as u128);
                assert(nib == uuid_nibble(u, uuid_nib_index(i as int)));
            }
            let c: u8 = if nib < 10 {
                0x30 + nib
            } else {
                0x57 + nib
            };
            out.push(c);
        }
        i += 1;
    }
    proof {
        assert(out@ =~= spec_uuid_str(u));
    }
    out
}

/// Reads the hyphenated form.
fn parse_hyphenated(s: &[u8]) -> (r: Option<u128>)
    requires
        s@.len() == 36,
    ensures
        r == spec_parse_uuid_rec(s@, 0, 0),
{
    let mut acc: u128 = 0;
    let mut i: usize = 0;
    while i < 36
        invariant
            0 <= i <= 36,
            s@.len() == 36,
            spec_parse_uuid_rec(s@, 0, 0) == spec_parse_uuid_rec(s@, i as int, acc),
        decreases 36 - i,
    {
        let b = s[i];
        if i == 8 || i == 13 || i == 18 || i == 23 {
            if b != 0x2d {
                return None;
            }
        } else {
            match hex_val_exec(b) {
                Some(v) => {
                    acc = (acc << 4) | v as u128;
                },
                None => {
                    return None;
                },
            }
        }
        i += 1;
    }
    Some(acc)
}

/// Reads the identifier in `s`, in any accepted form.
pub fn parse_uuid(s: &[u8]) -> (r: Option<u128>)
    ensures
        r == spec_parse_uuid(s@),
{
    if s.len() == 36 {
        parse_hyphenated(s)
    } else if s.len() == 38 {
        if s[0] == 0x7b && s[37] == 0x7d {
            parse_hyphenated(vstd::slice::slice_subrange(s, 1, 37))
        } else {
            None
        }
    } else if s.len() == 45 {
        let urn = (s[0] == 0x75 || s[0] == 0x55) && (s[1] == 0x72 || s[1] == 0x52) && (s[2] == 0x6e
            || s[2] == 0x4e) && s[3] == 0x3a && (s[4] == 0x75 || s[4] == 0x55) && (s[5] == 0x75
            || s[5] == 0x55) && (s[6] == 0x69 || s[6] == 0x49) && (s[7] == 0x64 || s[7] == 0x44)
            && s[8] == 0x3a;
        if urn {
            parse_hyphenated(vstd::slice::slice_subrange(s, 9, 45))
        } else {
            None
        }
    } else if s.len() == 32 {
        let mut acc: u128 = 0;
        let mut i: usize = 0;
        while i < 32
            invariant
                0 <= i <= 32,
                s@.len() == 32,
                spec_parse_uuid_simple_rec(s@, 0, 0) == spec_parse_uuid_simple_rec(
                    s@,
                    i as int,
                    acc,
                ),
            decreases 32 - i,
        {
            let b = s[i];
            match hex_val_exec(b) {
                Some(v) => {
                    acc = (acc << 4) | v as u128;
                },
                None => {
                    return None;
                },
            }
            i += 1;
        }
        Some(acc)
    } else {
        None
    }
}

/// The digit value of a hex character of either case.
pub fn hex_val_exec(b: u8) -> (r: Option<u8>)
    ensures
        r == hex_val(b),
{
    if 0x30 <= b && b <= 0x39 {
        Some(b - 0x30)
    } else if 0x61 <= b && b <= 0x66 {
        Some(b - 0x57)
    } else if 0x41 <= b && b <= 0x46 {
        Some(b - 0x37)
    } else {
        None
    }
}

/// One digit-consuming step preserves the accumulated prefix relation.
proof fn lemma_uuid_acc_step(u: u128, k: u32, acc: u128)
    requires
        k < 32,
        acc == if k == 0 {
            0u128
        } else {
            (u >> ((128 - 4 * k) as u128)) as u128
        },
    ensures
        ((acc << 4) | uuid_nibble(u, k as int) as u128) == (u >> ((124 - 4 * k) as u128)) as u128,
{
    let s: u128 = (124 - 4 * k) as u128;
    let nib = uuid_nibble(u, k as int);
    assert(((u >> s) & 0xf) < 16) by (bit_vector);
    assert(nib as u128 == (u >> s) & 0xf);
    if k == 0 {
        assert(s == 124);
        assert(((0u128 << 4) | ((u >> 124u128) & 0xf)) == u >> 124u128) by (bit_vector);
    } else {
        assert((128 - 4 * k) as u128 == s + 4);
        assert(s <= 120 ==> (((u >> (s + 4) as u128) << 4) | ((u >> s) & 0xf)) == u >> s)
            by (bit_vector);
        assert(s <= 120);
    }
}

/// Hex formatting and digit reading cancel out.
proof fn lemma_hex_char_val(n: u8)
    requires
        n < 16,
    ensures
        hex_val(hex_char_of(n)) == Some(n),
{
}

/// Parsing what formatting produced, from position `i` with a correct
/// accumulator, completes and yields `u` back.
proof fn lemma_parse_format_rec(u: u128, i: int, acc: u128)
    requires
        0 <= i <= 36,
        acc == if uuid_nib_index(i) == 0 {
            0u128
        } else {
            (u >> ((128 - 4 * uuid_nib_index(i)) as u128)) as u128
        },
        !uuid_hyphen_pos(i) || i != 36,
    ensures
        spec_parse_uuid_rec(spec_uuid_str(u), i, acc) == Some(u),
    decreases 36 - i,
{
    let s = spec_uuid_str(u);
    if i >= 36 {
        assert(uuid_nib_index(36) == 32);
        assert(acc == (u >> ((128 - 4 * 32) as u128)) as u128);
        assert((u >> 0u128) == u) by (bit_vector);
    } else if uuid_hyphen_pos(i) {
        assert(s[i] == 0x2d);
        assert(uuid_nib_index(i + 1) == uuid_nib_index(i));
        lemma_parse_format_rec(u, i + 1, acc);
    } else {
        let k = uuid_nib_index(i);
        let nib = uuid_nibble(u, k);
        let sh: u128 = (124 - 4 * k) as u128;
        assert(((u >> sh) & 0xf) < 16) by (bit_vector);
        assert(nib as u128 == (u >> sh) & 0xf);
        lemma_hex_char_val(nib);
        assert(s[i] == hex_char_of(nib));
        lemma_uuid_acc_step(u, k as u32, acc);
        assert(uuid_nib_index(i + 1) == k + 1);
        lemma_parse_format_rec(u, i + 1, ((acc << 4) | nib as u128) as u128);
    }
}

/// The canonical text of an identifier reads back as that identifier.
pub proof fn lemma_uuid_round_trip(u: u128)
    ensures
        spec_parse_uuid(spec_uuid_str(u)) == Some(u),
{
    lemma_parse_format_rec(u, 0, 0);
}

} // verus!
