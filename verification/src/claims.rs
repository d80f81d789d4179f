//! The signed payload of a session token: its fields, its JSON text, and
//! the strict reader that accepts exactly that shape. Field values live as
//! bytes; every text field must be safe to stand verbatim inside a JSON
//! string literal.

use vstd::prelude::*;
use crate::config::{json_safe, json_safe_byte};
use crate::decimal::{dec_str_of, spec_parse_num_at};
use crate::uuidfmt::{spec_parse_uuid, spec_uuid_str};

verus! {

/// The claims a token carries. `jti` is an audit identifier unique per
/// issuance, `sub` the user, `iss`/`aud` bind the token to this deployment,
/// `iat`/`exp` delimit its life, and `org_access` lists the organisations
/// the subject may act in.
#[derive(Debug)]
pub struct Claims {
    pub jti: Vec<u8>,
    pub sub: Vec<u8>,
    pub iss: Vec<u8>,
    pub aud: Vec<Vec<u8>>,
    pub iat: u64,
    pub exp: u64,
    pub org_access: Vec<u128>,
}

/// The claims as mathematical values.
pub ghost struct ClaimsModel {
    pub jti: Seq<u8>,
    pub sub: Seq<u8>,
    pub iss: Seq<u8>,
    pub aud: Seq<Seq<u8>>,
    pub iat: u64,
    pub exp: u64,
    pub org_access: Seq<u128>,
}

impl View for Claims {
    type V = ClaimsModel;

    open spec fn view(&self) -> ClaimsModel {
        ClaimsModel {
            jti: self.jti@,
            sub: self.sub@,
            iss: self.iss@,
            aud: seq_views(self.aud@),
            iat: self.iat,
            exp: self.exp,
            org_access: self.org_access@,
        }
    }
}

impl ClaimsModel {
    /// Every text field can stand inside a JSON string literal.
    pub open spec fn wf(&self) -> bool {
        &&& json_safe(self.jti)
        &&& json_safe(self.sub)
        &&& json_safe(self.iss)
        &&& forall|k: int| 0 <= k < self.aud.len() ==> json_safe(#[trigger] self.aud[k])
    }
}

/// The element views of a list of byte vectors.
pub open spec fn seq_views(a: Seq<Vec<u8>>) -> Seq<Seq<u8>> {
    a.map(|_i: int, v: Vec<u8>| v@)
}

/// `{"jti":"`
pub open spec fn lit_jti() -> Seq<u8> {
    seq![0x7bu8, 0x22, 0x6a, 0x74, 0x69, 0x22, 0x3a, 0x22]
}

/// `","sub":"`
pub open spec fn lit_sub() -> Seq<u8> {
    seq![0x22u8, 0x2c, 0x22, 0x73, 0x75, 0x62, 0x22, 0x3a, 0x22]
}

/// `","iss":"`
pub open spec fn lit_iss() -> Seq<u8> {
    seq![0x22u8, 0x2c, 0x22, 0x69, 0x73, 0x73, 0x22, 0x3a, 0x22]
}

/// `","aud":[`
pub open spec fn lit_aud() -> Seq<u8> {
    seq![0x22u8, 0x2c, 0x22, 0x61, 0x75, 0x64, 0x22, 0x3a, 0x5b]
}

/// `],"iat":`
pub open spec fn lit_iat() -> Seq<u8> {
    seq![0x5du8, 0x2c, 0x22, 0x69, 0x61, 0x74, 0x22, 0x3a]
}

/// `,"exp":`
pub open spec fn lit_exp() -> Seq<u8> {
    seq![0x2cu8, 0x22, 0x65, 0x78, 0x70, 0x22, 0x3a]
}

/// `,"org_access":[`
pub open spec fn lit_org() -> Seq<u8> {
    seq![0x2cu8, 0x22, 0x6f, 0x72, 0x67, 0x5f, 0x61, 0x63, 0x63, 0x65, 0x73, 0x73, 0x22, 0x3a, 0x5b]
}

/// `]}`
pub open spec fn lit_end() -> Seq<u8> {
    seq![0x5du8, 0x7d]
}

/// A JSON array of string literals, without its brackets: the elements in
/// quotes, commas between them.
pub open spec fn spec_str_array(a: Seq<Seq<u8>>) -> Seq<u8>
    decreases a.len(),
{
    if a.len() == 0 {
        Seq::<u8>::empty()
    } else if a.len() == 1 {
        seq![0x22u8] + a[0] + seq![0x22u8]
    } else {
        seq![0x22u8] + a[0] + seq![0x22u8, 0x2cu8] + spec_str_array(a.drop_first())
    }
}

/// A JSON array of identifier strings, without its brackets.
pub open spec fn spec_uuid_array(a: Seq<u128>) -> Seq<u8> {
    spec_str_array(a.map(|_i: int, u: u128| spec_uuid_str(u)))
}

/// The payload's JSON text: the seven fields, in this fixed order, nothing
/// else.
pub open spec fn spec_claims_json(c: ClaimsModel) -> Seq<u8> {
    lit_jti() + c.jti + lit_sub() + c.sub + lit_iss() + c.iss + lit_aud() + spec_str_array(c.aud)
        + lit_iat() + dec_str_of(c.iat as nat) + lit_exp() + dec_str_of(c.exp as nat) + lit_org()
        + spec_uuid_array(c.org_access) + lit_end()
}

/// Appends one spec-known literal to the output.
fn push_bytes(out: &mut Vec<u8>, bytes: &[u8])
    ensures
        final(out)@ == old(out)@ + bytes@,
{
    out.extend_from_slice(bytes);
}

/// Writes the claims' JSON text.
pub fn emit_claims(c: &Claims) -> (r: Vec<u8>)
    ensures
        r@ == spec_claims_json(c@),
{
    let mut out: Vec<u8> = Vec::new();
    let l_jti: [u8; 8] = [0x7b, 0x22, 0x6a, 0x74, 0x69, 0x22, 0x3a, 0x22];
    let l_sub: [u8; 9] = [0x22, 0x2c, 0x22, 0x73, 0x75, 0x62, 0x22, 0x3a, 0x22];
    let l_iss: [u8; 9] = [0x22, 0x2c, 0x22, 0x69, 0x73, 0x73, 0x22, 0x3a, 0x22];
    let l_aud: [u8; 9] = [0x22, 0x2c, 0x22, 0x61, 0x75, 0x64, 0x22, 0x3a, 0x5b];
    let l_iat: [u8; 8] = [0x5d, 0x2c, 0x22, 0x69, 0x61, 0x74, 0x22, 0x3a];
    let l_exp: [u8; 7] = [0x2c, 0x22, 0x65, 0x78, 0x70, 0x22, 0x3a];
    let l_org: [u8; 15] = [
        0x2c,
        0x22,
        0x6f,
        0x72,
        0x67,
        0x5f,
        0x61,
        0x63,
        0x63,
        0x65,
        0x73,
        0x73,
        0x22,
        0x3a,
        0x5b,
    ];
    let l_end: [u8; 2] = [0x5d, 0x7d];
    proof {
        assert(l_jti@ =~= lit_jti());
        assert(l_sub@ =~= lit_sub());
        assert(l_iss@ =~= lit_iss());
        assert(l_aud@ =~= lit_aud());
        assert(l_iat@ =~= lit_iat());
        assert(l_exp@ =~= lit_exp());
        assert(l_org@ =~= lit_org());
        assert(l_end@ =~= lit_end());
    }
    push_bytes(&mut out, l_jti.as_slice());
    push_bytes(&mut out, c.jti.as_slice());
    push_bytes(&mut out, l_sub.as_slice());
    push_bytes(&mut out, c.sub.as_slice());
    push_bytes(&mut out, l_iss.as_slice());
    push_bytes(&mut out, c.iss.as_slice());
    push_bytes(&mut out, l_aud.as_slice());
    emit_str_array(&mut out, &c.aud);
    push_bytes(&mut out, l_iat.as_slice());
    let iat_text = crate::decimal::format_u64_dec(c.iat);
    push_bytes(&mut out, iat_text.as_slice());
    push_bytes(&mut out, l_exp.as_slice());
    let exp_text = crate::decimal::format_u64_dec(c.exp);
    push_bytes(&mut out, exp_text.as_slice());
    push_bytes(&mut out, l_org.as_slice());
    emit_uuid_array(&mut out, &c.org_access);
    push_bytes(&mut out, l_end.as_slice());
    proof {
        assert(out@ =~= spec_claims_json(c@));
    }
    out
}

/// Writes the quoted, comma-separated elements of a string array.
fn emit_str_array(out: &mut Vec<u8>, a: &Vec<Vec<u8>>)
    ensures
        final(out)@ == old(out)@ + spec_str_array(seq_views(a@)),
{
    let ghost model = seq_views(a@);
    let n = a.len();
    let mut i: usize = 0;
    proof {
        assert(model.skip(0) =~= model);
    }
    while i < n
        invariant
            0 <= i <= n,
            n == a@.len(),
            model == seq_views(a@),
            out@ + spec_str_array(model.skip(i as int)) == old(out)@ + spec_str_array(model),
        decreases n - i,
    {
        proof {
            assert(model.skip(i as int)[0] == a@[i as int]@);
            assert(model.skip(i as int).drop_first() =~= model.skip(i as int + 1));
        }
        out.push(0x22);
        push_bytes(out, a[i].as_slice());
        out.push(0x22);
        if i + 1 < n {
            out.push(0x2c);
        } else {
            proof {
                assert(model.skip(i as int).len() == 1);
            }
        }
        proof {
            assert(out@ + spec_str_array(model.skip(i as int + 1)) =~= old(out)@ + spec_str_array(
                model,
            ));
        }
        i += 1;
    }
    proof {
        assert(model.skip(n as int).len() == 0);
        assert(out@ =~= old(out)@ + spec_str_array(model));
    }
}

/// Where the literal `l` stands at position `i` of `s`, the position after
/// it.
pub open spec fn spec_match_lit(s: Seq<u8>, i: int, l: Seq<u8>) -> Option<int> {
    if 0 <= i && i + l.len() <= s.len() && s.subrange(i, i + l.len() as int) == l {
        Some(i + l.len() as int)
    } else {
        None
    }
}

/// Where the run of JSON-safe bytes starting at `i` ends.
pub open spec fn str_end(s: Seq<u8>, i: int) -> int
    decreases s.len() - i,
    when 0 <= i <= s.len()
{
    if i >= s.len() || !json_safe_byte(s[i]) {
        i
    } else {
        str_end(s, i + 1)
    }
}

/// The string content starting at `i`: the JSON-safe run, and the position
/// of whatever ended it.
pub open spec fn spec_parse_jstr(s: Seq<u8>, i: int) -> (int, Seq<u8>) {
    (str_end(s, i), s.subrange(i, str_end(s, i)))
}

/// One or more quoted strings, comma-separated, starting on a quote at `i`:
/// the position after the last closing quote, and the contents.
pub open spec fn spec_parse_str_elems(s: Seq<u8>, i: int) -> Option<(int, Seq<Seq<u8>>)>
    decreases s.len() - i,
    when 0 <= i <= s.len()
{
    if i < s.len() && s[i] == 0x22 {
        let e = str_end(s, i + 1);
        if e < s.len() && s[e] == 0x22 {
            let content = s.subrange(i + 1, e);
            let j = e + 1;
            if j < s.len() && s[j] == 0x2c {
                if j + 1 > i {
                    match spec_parse_str_elems(s, j + 1) {
                        Some((k, rest)) => Some((k, seq![content] + rest)),
                        None => None,
                    }
                } else {
                    None
                }
            } else {
                Some((j, seq![content]))
            }
        } else {
            None
        }
    } else {
        None
    }
}

/// A string array's elements, read after its opening bracket: empty when no
/// quote follows, else the quoted elements.
pub open spec fn spec_parse_str_array(s: Seq<u8>, i: int) -> Option<(int, Seq<Seq<u8>>)> {
    if i < s.len() && s[i] == 0x22 {
        spec_parse_str_elems(s, i)
    } else {
        Some((i, Seq::<Seq<u8>>::empty()))
    }
}

/// The identifiers the array elements denote, if every element reads as
/// one.
pub open spec fn spec_uuids_of(elems: Seq<Seq<u8>>) -> Option<Seq<u128>>
    decreases elems.len(),
{
    if elems.len() == 0 {
        Some(Seq::<u128>::empty())
    } else {
        match spec_parse_uuid(elems[0]) {
            Some(u) => match spec_uuids_of(elems.drop_first()) {
                Some(rest) => Some(seq![u] + rest),
                None => None,
            },
            None => None,
        }
    }
}

/// An identifier array, read after its opening bracket.
pub open spec fn spec_parse_uuid_array(s: Seq<u8>, i: int) -> Option<(int, Seq<u128>)> {
    match spec_parse_str_array(s, i) {
        Some((j, elems)) => match spec_uuids_of(elems) {
            Some(us) => Some((j, us)),
            None => None,
        },
        None => None,
    }
}

/// The claims a payload's text denotes: exactly the shape
/// [`spec_claims_json`] writes, covering the whole text, or nothing.
pub open spec fn spec_parse_claims(s: Seq<u8>) -> Option<ClaimsModel> {
    match spec_match_lit(s, 0, lit_jti()) {
        None => None,
        Some(i0) => {
            let (i1, jti) = spec_parse_jstr(s, i0);
            match spec_match_lit(s, i1, lit_sub()) {
                None => None,
                Some(i2) => {
                    let (i3, sub) = spec_parse_jstr(s, i2);
                    match spec_match_lit(s, i3, lit_iss()) {
                        None => None,
                        Some(i4) => {
                            let (i5, iss) = spec_parse_jstr(s, i4);
                            match spec_match_lit(s, i5, lit_aud()) {
                                None => None,
                                Some(i6) => match spec_parse_str_array(s, i6) {
                                    None => None,
                                    Some((i7, aud)) => match spec_match_lit(s, i7, lit_iat()) {
                                        None => None,
                                        Some(i8) => match spec_parse_num_at(s, i8) {
                                            None => None,
                                            Some((i9, iat)) => match spec_match_lit(
                                                s,
                                                i9,
                                                lit_exp(),
                                            ) {
                                                None => None,
                                                Some(i10) => match spec_parse_num_at(s, i10) {
                                                    None => None,
                                                    Some((i11, exp)) => match spec_match_lit(
                                                        s,
                                                        i11,
                                                        lit_org(),
                                                    ) {
                                                        None => None,
                                                        Some(i12) => match spec_parse_uuid_array(
                                                            s,
                                                            i12,
                                                        ) {
                                                            None => None,
                                                            Some((i13, orgs)) => match spec_match_lit(
                                                                s,
                                                                i13,
                                                                lit_end(),
                                                            ) {
                                                                None => None,
                                                                Some(i14) => if i14 == s.len() {
                                                                    Some(
                                                                        ClaimsModel {
                                                                            jti,
                                                                            sub,
                                                                            iss,
                                                                            aud,
                                                                            iat,
                                                                            exp,
                                                                            org_access: orgs,
                                                                        },
                                                                    )
                                                                } else {
                                                                    None
                                                                },
                                                            },
                                                        },
                                                    },
                                                },
                                            },
                                        },
                                    },
                                },
                            }
                        },
                    }
                },
            }
        },
    }
}

/// Whether the literal `l` stands at position `i` of `s`.
fn match_lit(s: &[u8], i: usize, l: &[u8]) -> (r: Option<usize>)
    requires
        i <= s@.len(),
    ensures
        match r {
            Some(j) => spec_match_lit(s@, i as int, l@) == Some(j as int) && i <= j <= s@.len(),
            None => spec_match_lit(s@, i as int, l@) is None,
        },
{
    let n = s.len();
    let m = l.len();
    if n - i < m {
        return None;
    }
    let mut k: usize = 0;
    while k < m
        invariant
            0 <= k <= m,
            m == l@.len(),
            n == s@.len(),
            i + m <= n,
            forall|t: int| 0 <= t < k ==> s@[i + t] == l@[t],
        decreases m - k,
    {
        if s[i + k] != l[k] {
            proof {
                assert(s@.subrange(i as int, i + m as int)[k as int] != l@[k as int]);
            }
            return None;
        }
        k += 1;
    }
    proof {
        assert(s@.subrange(i as int, i + m as int) =~= l@);
    }
    Some(i + m)
}

/// The string content starting at `i`, and the position of whatever ended
/// it.
fn parse_jstr(s: &[u8], i: usize) -> (r: (usize, Vec<u8>))
    requires
        i <= s@.len(),
    ensures
        spec_parse_jstr(s@, i as int) == (r.0 as int, r.1@),
        i <= r.0 <= s@.len(),
{
    let n = s.len();
    let mut e: usize = i;
    while e < n && 0x20 <= s[e] && s[e] <= 0x7e && s[e] != 0x22 && s[e] != 0x5c
        invariant
            i <= e <= n,
            n == s@.len(),
            str_end(s@, i as int) == str_end(s@, e as int),
        decreases n - e,
    {
        e += 1;
    }
    let content = vstd::slice::slice_to_vec(vstd::slice::slice_subrange(s, i, e));
    (e, content)
}

/// One or more quoted strings, comma-separated, starting on a quote.
fn parse_str_elems(s: &[u8], i: usize) -> (r: Option<(usize, Vec<Vec<u8>>)>)
    requires
        i <= s@.len(),
    ensures
        match r {
            Some((j, elems)) => spec_parse_str_elems(s@, i as int) == Some(
                (j as int, seq_views(elems@)),
            ) && i <= j <= s@.len(),
            None => spec_parse_str_elems(s@, i as int) is None,
        },
{
    let n = s.len();
    let mut cur: usize = i;
    let mut acc: Vec<Vec<u8>> = Vec::new();
    loop
        invariant
            i <= cur <= n,
            n == s@.len(),
            match spec_parse_str_elems(s@, cur as int) {
                Some((k, rest)) => spec_parse_str_elems(s@, i as int) == Some(
                    (k, seq_views(acc@) + rest),
                ),
                None => spec_parse_str_elems(s@, i as int) is None,
            },
        decreases n - cur,
    {
        if !(cur < n && s[cur] == 0x22) {
            return None;
        }
        let (e, content) = parse_jstr(s, cur + 1);
        if !(e < n && s[e] == 0x22) {
            return None;
        }
        let j = e + 1;
        let ghost pre = seq_views(acc@);
        acc.push(content);
        proof {
            assert(seq_views(acc@) =~= pre + seq![
                s@.subrange(cur as int + 1, e as int),
            ]);
        }
        if j < n && s[j] == 0x2c {
            proof {
                match spec_parse_str_elems(s@, j as int + 1) {
                    Some((k, rest)) => {
                        assert(pre + (seq![s@.subrange(cur as int + 1, e as int)] + rest) =~= (pre
                            + seq![s@.subrange(cur as int + 1, e as int)]) + rest);
                    },
                    None => {},
                }
            }
            cur = j + 1;
        } else {
            proof {
                assert(pre + seq![s@.subrange(cur as int + 1, e as int)] =~= acc@.map(
                    |_i: int, v: Vec<u8>| v@,
                ));
            }
            return Some((j, acc));
        }
    }
}

/// A string array's elements, read after its opening bracket.
fn parse_str_array(s: &[u8], i: usize) -> (r: Option<(usize, Vec<Vec<u8>>)>)
    requires
        i <= s@.len(),
    ensures
        match r {
            Some((j, elems)) => spec_parse_str_array(s@, i as int) == Some(
                (j as int, seq_views(elems@)),
            ) && i <= j <= s@.len(),
            None => spec_parse_str_array(s@, i as int) is None,
        },
{
    if i < s.len() && s[i] == 0x22 {
        parse_str_elems(s, i)
    } else {
        let elems: Vec<Vec<u8>> = Vec::new();
        proof {
            assert(seq_views(elems@) =~= Seq::<Seq<u8>>::empty());
        }
        Some((i, elems))
    }
}

/// An identifier array, read after its opening bracket.
fn parse_uuid_array(s: &[u8], i: usize) -> (r: Option<(usize, Vec<u128>)>)
    requires
        i <= s@.len(),
    ensures
        match r {
            Some((j, us)) => spec_parse_uuid_array(s@, i as int) == Some((j as int, us@)) && i <= j
                <= s@.len(),
            None => spec_parse_uuid_array(s@, i as int) is None,
        },
{
    let (j, elems) = match parse_str_array(s, i) {
        Some(p) => p,
        None => {
            return None;
        },
    };
    let ghost model = seq_views(elems@);
    let mut us: Vec<u128> = Vec::new();
    let n = elems.len();
    let mut k: usize = 0;
    proof {
        assert(model.skip(0) =~= model);
    }
    while k < n
        invariant
            0 <= k <= n,
            n == elems@.len(),
            model == seq_views(elems@),
            spec_parse_str_array(s@, i as int) == Some((j as int, model)),
            i <= j <= s@.len(),
            match spec_uuids_of(model.skip(k as int)) {
                Some(rest) => spec_uuids_of(model) == Some(us@ + rest),
                None => spec_uuids_of(model) is None,
            },
        decreases n - k,
    {
        proof {
            assert(model.skip(k as int)[0] == elems@[k as int]@);
            assert(model.skip(k as int).drop_first() =~= model.skip(k as int + 1));
        }
        match crate::uuidfmt::parse_uuid(elems[k].as_slice()) {
            Some(u) => {
                let ghost prev = us@;
                us.push(u);
                proof {
                    match spec_uuids_of(model.skip(k as int + 1)) {
                        Some(rest) => {
                            assert(prev + (seq![u] + rest) =~= us@ + rest);
                        },
                        None => {},
                    }
                }
            },
            None => {
                proof {
                    assert(model.skip(k as int).len() > 0);
                    assert(spec_parse_uuid(model.skip(k as int)[0]) is None);
                    assert(spec_uuids_of(model.skip(k as int)) is None);
                    assert(spec_uuids_of(model) is None);
                    assert(spec_parse_uuid_array(s@, i as int) is None);
                }
                return None;
            },
        }
        k += 1;
    }
    proof {
        assert(model.skip(n as int).len() == 0);
        assert(us@ + Seq::<u128>::empty() =~= us@);
    }
    Some((j, us))
}

/// Reads a payload's claims, accepting exactly the shape
/// [`spec_claims_json`] writes: the seven fields in their fixed order, no
/// escapes, no extra fields. A payload carrying the same claims in another
/// JSON layout is refused — the verifier then answers `InvalidToken`.
pub fn parse_claims(s: &[u8]) -> (r: Option<Claims>)
    ensures
        match r {
            Some(c) => spec_parse_claims(s@) == Some(c@),
            None => spec_parse_claims(s@) is None,
        },
{
    let l_jti: [u8; 8] = [0x7b, 0x22, 0x6a, 0x74, 0x69, 0x22, 0x3a, 0x22];
    let l_sub: [u8; 9] = [0x22, 0x2c, 0x22, 0x73, 0x75, 0x62, 0x22, 0x3a, 0x22];
    let l_iss: [u8; 9] = [0x22, 0x2c, 0x22, 0x69, 0x73, 0x73, 0x22, 0x3a, 0x22];
    let l_aud: [u8; 9] = [0x22, 0x2c, 0x22, 0x61, 0x75, 0x64, 0x22, 0x3a, 0x5b];
    let l_iat: [u8; 8] = [0x5d, 0x2c, 0x22, 0x69, 0x61, 0x74, 0x22, 0x3a];
    let l_exp: [u8; 7] = [0x2c, 0x22, 0x65, 0x78, 0x70, 0x22, 0x3a];
    let l_org: [u8; 15] = [
        0x2c,
        0x22,
        0x6f,
        0x72,
        0x67,
        0x5f,
        0x61,
        0x63,
        0x63,
        0x65,
        0x73,
        0x73,
        0x22,
        0x3a,
        0x5b,
    ];
    let l_end: [u8; 2] = [0x5d, 0x7d];
    proof {
        assert(l_jti@ =~= lit_jti());
        assert(l_sub@ =~= lit_sub());
        assert(l_iss@ =~= lit_iss());
        assert(l_aud@ =~= lit_aud());
        assert(l_iat@ =~= lit_iat());
        assert(l_exp@ =~= lit_exp());
        assert(l_org@ =~= lit_org());
        assert(l_end@ =~= lit_end());
    }
    let i0 = match match_lit(s, 0, l_jti.as_slice()) {
        Some(i) => i,
        None => {
            return None;
        },
    };
    let (i1, jti) = parse_jstr(s, i0);
    let i2 = match match_lit(s, i1, l_sub.as_slice()) {
        Some(i) => i,
        None => {
            return None;
        },
    };
    let (i3, sub) = parse_jstr(s, i2);
    let i4 = match match_lit(s, i3, l_iss.as_slice()) {
        Some(i) => i,
        None => {
            return None;
        },
    };
    let (i5, iss) = parse_jstr(s, i4);
    let i6 = match match_lit(s, i5, l_aud.as_slice()) {
        Some(i) => i,
        None => {
            return None;
        },
    };
    let (i7, aud) = match parse_str_array(s, i6) {
        Some(p) => p,
        None => {
            return None;
        },
    };
    let i8 = match match_lit(s, i7, l_iat.as_slice()) {
        Some(i) => i,
        None => {
            return None;
        },
    };
    let (i9, iat) = match crate::decimal::parse_num_at(s, i8) {
        Some(p) => p,
        None => {
            return None;
        },
    };
    let i10 = match match_lit(s, i9, l_exp.as_slice()) {
        Some(i) => i,
        None => {
            return None;
        },
    };
    let (i11, exp) = match crate::decimal::parse_num_at(s, i10) {
        Some(p) => p,
        None => {
            return None;
        },
    };
    let i12 = match match_lit(s, i11, l_org.as_slice()) {
        Some(i) => i,
        None => {
            return None;
        },
    };
    let (i13, org_access) = match parse_uuid_array(s, i12) {
        Some(p) => p,
        None => {
            return None;
        },
    };
    let i14 = match match_lit(s, i13, l_end.as_slice()) {
        Some(i) => i,
        None => {
            return None;
        },
    };
    if i14 != s.len() {
        return None;
    }
    Some(Claims { jti, sub, iss, aud, iat, exp, org_access })
}

/// Writes the quoted, comma-separated identifiers of an identifier array.
fn emit_uuid_array(out: &mut Vec<u8>, a: &Vec<u128>)
    ensures
        final(out)@ == old(out)@ + spec_uuid_array(a@),
{
    let mut texts: Vec<Vec<u8>> = Vec::new();
    let n = a.len();
    let mut i: usize = 0;
    while i < n
        invariant
            0 <= i <= n,
            n == a@.len(),
            texts@.len() == i,
            forall|k: int| 0 <= k < i ==> texts@[k]@ == spec_uuid_str(a@[k]),
        decreases n - i,
    {
        let t = crate::uuidfmt::format_uuid(a[i]);
        texts.push(t);
        i += 1;
    }
    proof {
        assert(seq_views(texts@) =~= a@.map(|_i: int, u: u128| spec_uuid_str(u)));
    }
    emit_str_array(out, &texts);
}

} // verus!
// Completeness: the reader accepts what the writer wrote, and recovers the
// claims exactly.
verus! {

/// A literal standing at `i` is matched there.
proof fn lemma_match_lit_at(s: Seq<u8>, i: int, l: Seq<u8>)
    requires
        0 <= i,
        i + l.len() <= s.len(),
        s.subrange(i, i + l.len() as int) == l,
    ensures
        spec_match_lit(s, i, l) == Some(i + l.len() as int),
{
}

/// What a known prefix of `s` holds, `s` holds at the same places.
pub proof fn lemma_piece(s: Seq<u8>, p: Seq<u8>, a: int, b: int)
    requires
        p.len() <= s.len(),
        s.subrange(0, p.len() as int) == p,
        0 <= a <= b <= p.len(),
    ensures
        s.subrange(a, b) == p.subrange(a, b),
{
    assert forall|t: int| 0 <= t < b - a implies s.subrange(a, b)[t] == p.subrange(a, b)[t] by {
        assert(s.subrange(0, p.len() as int)[a + t] == p[a + t]);
    }
    assert(s.subrange(a, b) =~= p.subrange(a, b));
}

/// A concatenation's halves stand at its two ends.
pub proof fn lemma_take_drop(x: Seq<u8>, y: Seq<u8>)
    ensures
        (x + y).subrange(0, x.len() as int) == x,
        (x + y).subrange(x.len() as int, (x + y).len() as int) == y,
{
    assert((x + y).subrange(0, x.len() as int) =~= x);
    assert((x + y).subrange(x.len() as int, (x + y).len() as int) =~= y);
}

/// A prefix of a known prefix of `s` is itself a known prefix of `s`.
pub proof fn lemma_prefix_step(s: Seq<u8>, p: Seq<u8>, x: Seq<u8>)
    requires
        (p + x).len() <= s.len(),
        s.subrange(0, (p + x).len() as int) == p + x,
    ensures
        s.subrange(0, p.len() as int) == p,
        s.subrange(p.len() as int, (p + x).len() as int) == x,
{
    lemma_take_drop(p, x);
    lemma_piece(s, p + x, 0, p.len() as int);
    lemma_piece(s, p + x, p.len() as int, (p + x).len() as int);
}

/// A JSON-safe run at `i`, ended by something unsafe, ends the scan there.
proof fn lemma_str_end_at(s: Seq<u8>, i: int, content: Seq<u8>)
    requires
        0 <= i,
        i + content.len() < s.len(),
        json_safe(content),
        s.subrange(i, i + content.len() as int) == content,
        !json_safe_byte(s[i + content.len()]),
    ensures
        str_end(s, i) == i + content.len(),
        spec_parse_jstr(s, i) == (i + content.len(), content),
    decreases content.len(),
{
    if content.len() == 0 {
        assert(!json_safe_byte(s[i]));
        assert(s.subrange(i, i) =~= content);
    } else {
        assert(s[i] == s.subrange(i, i + content.len() as int)[0]);
        assert(json_safe_byte(content[0]));
        let rest = content.drop_first();
        assert(json_safe(rest));
        assert forall|t: int| 0 <= t < rest.len() implies s.subrange(
            i + 1,
            i + content.len() as int,
        )[t] == rest[t] by {
            assert(s.subrange(i, i + content.len() as int)[t + 1] == content[t + 1]);
        }
        assert(s.subrange(i + 1, i + content.len() as int) =~= rest);
        lemma_str_end_at(s, i + 1, rest);
        assert(s.subrange(i, str_end(s, i)) =~= content);
    }
}

/// One or more quoted elements standing at `i`, with no comma after the
/// last closing quote, are read back exactly.
proof fn lemma_str_elems_complete(s: Seq<u8>, i: int, elems: Seq<Seq<u8>>)
    requires
        elems.len() >= 1,
        forall|k: int| 0 <= k < elems.len() ==> json_safe(#[trigger] elems[k]),
        0 <= i,
        i + spec_str_array(elems).len() < s.len(),
        s.subrange(i, i + spec_str_array(elems).len() as int) == spec_str_array(elems),
        s[i + spec_str_array(elems).len()] != 0x2c,
    ensures
        spec_parse_str_elems(s, i) == Some((i + spec_str_array(elems).len() as int, elems)),
    decreases elems.len(),
{
    let a = spec_str_array(elems);
    let e0 = elems[0];
    assert(json_safe(e0));
    assert(a[0] == 0x22);
    assert(a[1 + e0.len() as int] == 0x22);
    assert(s[i] == s.subrange(i, i + a.len() as int)[0]);
    assert forall|t: int| 0 <= t < e0.len() implies s.subrange(i + 1, i + 1 + e0.len() as int)[t]
        == e0[t] by {
        assert(s.subrange(i, i + a.len() as int)[1 + t] == a[1 + t]);
        assert(a[1 + t] == e0[t]);
    }
    assert(s.subrange(i + 1, i + 1 + e0.len() as int) =~= e0);
    assert(s[i + 1 + e0.len()] == s.subrange(i, i + a.len() as int)[1 + e0.len() as int]);
    assert(s[i + 1 + e0.len()] == 0x22);
    assert(!json_safe_byte(0x22));
    lemma_str_end_at(s, i + 1, e0);
    let e = str_end(s, i + 1);
    assert(e == i + 1 + e0.len());
    assert(s.subrange(i + 1, e) =~= e0);
    let j = e + 1;
    if elems.len() == 1 {
        assert(j == i + a.len());
        assert(j == s.len() || s[j] != 0x2c);
        assert(seq![e0] =~= elems);
    } else {
        let a1 = spec_str_array(elems.drop_first());
        assert(a == seq![0x22u8] + e0 + seq![0x22u8, 0x2cu8] + a1);
        assert(a.len() == e0.len() + 3 + a1.len());
        assert(s[j] == s.subrange(i, i + a.len() as int)[e0.len() as int + 2]);
        assert(a[e0.len() as int + 2] == 0x2c);
        assert(s[j] == 0x2c);
        assert forall|t: int| 0 <= t < a1.len() implies s.subrange(
            j + 1,
            j + 1 + a1.len() as int,
        )[t] == a1[t] by {
            assert(s.subrange(i, i + a.len() as int)[e0.len() as int + 3 + t] == a[e0.len() as int
                + 3 + t]);
            assert(a[e0.len() as int + 3 + t] == a1[t]);
        }
        assert(s.subrange(j + 1, j + 1 + a1.len() as int) =~= a1);
        assert(s[j + 1 + a1.len()] == s[i + a.len()]);
        assert forall|k: int| 0 <= k < elems.drop_first().len() implies json_safe(
            #[trigger] elems.drop_first()[k],
        ) by {
            assert(elems.drop_first()[k] == elems[k + 1]);
        }
        lemma_str_elems_complete(s, j + 1, elems.drop_first());
        assert(seq![e0] + elems.drop_first() =~= elems);
    }
}

/// An array of quoted elements standing after its opening bracket, with
/// neither a comma nor a quote right after it, is read back exactly.
proof fn lemma_str_array_complete(s: Seq<u8>, i: int, elems: Seq<Seq<u8>>)
    requires
        forall|k: int| 0 <= k < elems.len() ==> json_safe(#[trigger] elems[k]),
        0 <= i,
        i + spec_str_array(elems).len() < s.len(),
        s.subrange(i, i + spec_str_array(elems).len() as int) == spec_str_array(elems),
        s[i + spec_str_array(elems).len()] != 0x2c,
        s[i + spec_str_array(elems).len()] != 0x22,
    ensures
        spec_parse_str_array(s, i) == Some((i + spec_str_array(elems).len() as int, elems)),
{
    if elems.len() == 0 {
        assert(spec_str_array(elems).len() == 0);
        assert(s[i] != 0x22);
        assert(Seq::<Seq<u8>>::empty() =~= elems);
    } else {
        assert(s[i] == s.subrange(i, i + spec_str_array(elems).len() as int)[0]);
        assert(spec_str_array(elems)[0] == 0x22);
        lemma_str_elems_complete(s, i, elems);
    }
}

/// An identifier's canonical text is safe inside a JSON string literal.
pub proof fn lemma_uuid_str_json_safe(u: u128)
    ensures
        json_safe(spec_uuid_str(u)),
{
    assert forall|k: int| 0 <= k < 36 implies json_safe_byte(#[trigger] spec_uuid_str(u)[k]) by {
        if !crate::uuidfmt::uuid_hyphen_pos(k) {
            let sh: u128 = (124 - 4 * crate::uuidfmt::uuid_nib_index(k)) as u128;
            assert(((u >> sh) & 0xf) < 16) by (bit_vector);
        }
    }
    assert forall|k: int| 0 <= k < spec_uuid_str(u).len() implies json_safe_byte(
        #[trigger] spec_uuid_str(u)[k],
    ) by {}
}

/// The canonical texts of a list of identifiers read back as those
/// identifiers.
proof fn lemma_uuids_of_complete(orgs: Seq<u128>)
    ensures
        spec_uuids_of(orgs.map(|_i: int, u: u128| spec_uuid_str(u))) == Some(orgs),
    decreases orgs.len(),
{
    let texts = orgs.map(|_i: int, u: u128| spec_uuid_str(u));
    if orgs.len() == 0 {
        assert(Seq::<u128>::empty() =~= orgs);
    } else {
        crate::uuidfmt::lemma_uuid_round_trip(orgs[0]);
        lemma_uuids_of_complete(orgs.drop_first());
        assert(texts.drop_first() =~= orgs.drop_first().map(|_i: int, u: u128| spec_uuid_str(u)));
        match spec_uuids_of(texts.drop_first()) {
            Some(rest) => {
                assert(seq![orgs[0]] + rest =~= orgs);
            },
            None => {},
        }
    }
}

/// The offsets of the payload's successive pieces.
pub open spec fn off_jti(c: ClaimsModel) -> int {
    lit_jti().len() as int
}

pub open spec fn off_sub(c: ClaimsModel) -> int {
    off_jti(c) + c.jti.len() + lit_sub().len()
}

pub open spec fn off_iss(c: ClaimsModel) -> int {
    off_sub(c) + c.sub.len() + lit_iss().len()
}

pub open spec fn off_aud(c: ClaimsModel) -> int {
    off_iss(c) + c.iss.len() + lit_aud().len()
}

pub open spec fn off_iat(c: ClaimsModel) -> int {
    off_aud(c) + spec_str_array(c.aud).len() + lit_iat().len()
}

pub open spec fn off_exp(c: ClaimsModel) -> int {
    off_iat(c) + dec_str_of(c.iat as nat).len() + lit_exp().len()
}

pub open spec fn off_org(c: ClaimsModel) -> int {
    off_exp(c) + dec_str_of(c.exp as nat).len() + lit_org().len()
}

pub open spec fn off_end(c: ClaimsModel) -> int {
    off_org(c) + spec_uuid_array(c.org_access).len()
}

/// Each piece of the payload stands in `s` at its place.
pub open spec fn pieces_laid_out(s: Seq<u8>, c: ClaimsModel) -> bool {
    &&& s.len() == off_end(c) + lit_end().len()
    &&& s.subrange(0, off_jti(c)) == lit_jti()
    &&& s.subrange(off_jti(c), off_jti(c) + c.jti.len()) == c.jti
    &&& s.subrange(off_jti(c) + c.jti.len(), off_sub(c)) == lit_sub()
    &&& s.subrange(off_sub(c), off_sub(c) + c.sub.len()) == c.sub
    &&& s.subrange(off_sub(c) + c.sub.len(), off_iss(c)) == lit_iss()
    &&& s.subrange(off_iss(c), off_iss(c) + c.iss.len()) == c.iss
    &&& s.subrange(off_iss(c) + c.iss.len(), off_aud(c)) == lit_aud()
    &&& s.subrange(off_aud(c), off_aud(c) + spec_str_array(c.aud).len()) == spec_str_array(c.aud)
    &&& s.subrange(off_aud(c) + spec_str_array(c.aud).len(), off_iat(c)) == lit_iat()
    &&& s.subrange(off_iat(c), off_iat(c) + dec_str_of(c.iat as nat).len()) == dec_str_of(
        c.iat as nat,
    )
    &&& s.subrange(off_iat(c) + dec_str_of(c.iat as nat).len(), off_exp(c)) == lit_exp()
    &&& s.subrange(off_exp(c), off_exp(c) + dec_str_of(c.exp as nat).len()) == dec_str_of(
        c.exp as nat,
    )
    &&& s.subrange(off_exp(c) + dec_str_of(c.exp as nat).len(), off_org(c)) == lit_org()
    &&& s.subrange(off_org(c), off_end(c)) == spec_uuid_array(c.org_access)
    &&& s.subrange(off_end(c), off_end(c) + lit_end().len()) == lit_end()
}

/// With every piece in place, the reader walks them all and recovers the
/// claims.
#[verifier::rlimit(100)]
proof fn lemma_parse_chain(s: Seq<u8>, c: ClaimsModel)
    requires
        c.wf(),
        pieces_laid_out(s, c),
    ensures
        spec_parse_claims(s) == Some(c),
{
    let a_aud = spec_str_array(c.aud);
    let d_iat = dec_str_of(c.iat as nat);
    let d_exp = dec_str_of(c.exp as nat);
    let a_org = spec_uuid_array(c.org_access);
    let i0 = off_jti(c);
    let i1 = i0 + c.jti.len();
    let i2 = off_sub(c);
    let i3 = i2 + c.sub.len();
    let i4 = off_iss(c);
    let i5 = i4 + c.iss.len();
    let i6 = off_aud(c);
    let i7 = i6 + a_aud.len();
    let i8 = off_iat(c);
    let i9 = i8 + d_iat.len();
    let i10 = off_exp(c);
    let i11 = i10 + d_exp.len();
    let i12 = off_org(c);
    let i13 = off_end(c);
    let i14 = i13 + lit_end().len();
    lemma_match_lit_at(s, 0, lit_jti());
    assert(s[i1] == s.subrange(i1, i2)[0]);
    assert(s[i1] == 0x22);
    lemma_str_end_at(s, i0, c.jti);
    lemma_match_lit_at(s, i1, lit_sub());
    assert(s[i3] == s.subrange(i3, i4)[0]);
    assert(s[i3] == 0x22);
    lemma_str_end_at(s, i2, c.sub);
    lemma_match_lit_at(s, i3, lit_iss());
    assert(s[i5] == s.subrange(i5, i6)[0]);
    assert(s[i5] == 0x22);
    lemma_str_end_at(s, i4, c.iss);
    lemma_match_lit_at(s, i5, lit_aud());
    assert(s[i7] == s.subrange(i7, i8)[0]);
    assert(s[i7] == 0x5d);
    lemma_str_array_complete(s, i6, c.aud);
    lemma_match_lit_at(s, i7, lit_iat());
    assert(s[i9] == s.subrange(i9, i10)[0]);
    assert(s[i9] == 0x2c);
    crate::decimal::lemma_parse_num_complete(s, i8, c.iat);
    lemma_match_lit_at(s, i9, lit_exp());
    assert(s[i11] == s.subrange(i11, i12)[0]);
    assert(s[i11] == 0x2c);
    crate::decimal::lemma_parse_num_complete(s, i10, c.exp);
    lemma_match_lit_at(s, i11, lit_org());
    assert(s[i13] == s.subrange(i13, i14)[0]);
    assert(s[i13] == 0x5d);
    let org_texts = c.org_access.map(|_i: int, u: u128| spec_uuid_str(u));
    assert forall|k: int| 0 <= k < org_texts.len() implies json_safe(#[trigger] org_texts[k]) by {
        lemma_uuid_str_json_safe(c.org_access[k]);
    }
    lemma_str_array_complete(s, i12, org_texts);
    lemma_uuids_of_complete(c.org_access);
    lemma_match_lit_at(s, i13, lit_end());
    match spec_parse_claims(s) {
        Some(m) => {
            assert(m == c);
        },
        None => {
            assert(false);
        },
    }
}

/// Reading the written payload of well-formed claims yields the claims
/// back: the codec round-trips.
pub proof fn lemma_claims_round_trip(c: ClaimsModel)
    requires
        c.wf(),
    ensures
        spec_parse_claims(spec_claims_json(c)) == Some(c),
{
    let s = spec_claims_json(c);
    let a_aud = spec_str_array(c.aud);
    let d_iat = dec_str_of(c.iat as nat);
    let d_exp = dec_str_of(c.exp as nat);
    let a_org = spec_uuid_array(c.org_access);
    let g1 = lit_jti() + c.jti;
    let g2 = g1 + lit_sub();
    let g3 = g2 + c.sub;
    let g4 = g3 + lit_iss();
    let g5 = g4 + c.iss;
    let g6 = g5 + lit_aud();
    let g7 = g6 + a_aud;
    let g8 = g7 + lit_iat();
    let g9 = g8 + d_iat;
    let g10 = g9 + lit_exp();
    let g11 = g10 + d_exp;
    let g12 = g11 + lit_org();
    let g13 = g12 + a_org;
    assert(s == g13 + lit_end());
    assert(s.subrange(0, s.len() as int) =~= s);
    lemma_prefix_step(s, g13, lit_end());
    lemma_prefix_step(s, g12, a_org);
    lemma_prefix_step(s, g11, lit_org());
    lemma_prefix_step(s, g10, d_exp);
    lemma_prefix_step(s, g9, lit_exp());
    lemma_prefix_step(s, g8, d_iat);
    lemma_prefix_step(s, g7, lit_iat());
    lemma_prefix_step(s, g6, a_aud);
    lemma_prefix_step(s, g5, lit_aud());
    lemma_prefix_step(s, g4, c.iss);
    lemma_prefix_step(s, g3, lit_iss());
    lemma_prefix_step(s, g2, c.sub);
    lemma_prefix_step(s, g1, lit_sub());
    lemma_prefix_step(s, lit_jti(), c.jti);
    assert(pieces_laid_out(s, c));
    lemma_parse_chain(s, c);
}

} // verus!
