//! A request's or response's headers, modelled as an ordered list of
//! name/value pairs, with the lookups the pipeline stages need. Lookup finds
//! the first entry with the given name; setting a name removes every earlier
//! entry with it.

use vstd::prelude::*;
use crate::errors::RequestError;
use crate::uuidfmt::{parse_uuid, spec_parse_uuid};

verus! {

/// The identifier a header value's text denotes, if any.
pub open spec fn spec_parse_uuid_chars(s: Seq<char>) -> Option<u128> {
    spec_parse_uuid(vstd::utf8::encode_utf8(s))
}

/// The correlation-id header stamped on every request and echoed on every
/// response.
pub const TRACING_ID_HEADER: &'static str = "x-tracing-id";

/// The header naming the tenant a scoped request addresses.
pub const ORGANISATION_ID_HEADER: &'static str = "x-organisation-id";

/// The value of the first entry named `name`, if any.
pub open spec fn spec_lookup(entries: Seq<(String, String)>, name: Seq<char>) -> Option<Seq<char>>
    decreases entries.len(),
{
    if entries.len() == 0 {
        None
    } else if entries[0].0@ == name {
        Some(entries[0].1@)
    } else {
        spec_lookup(entries.drop_first(), name)
    }
}

/// Header names and values of one request or response.
#[derive(Debug, Clone)]
pub struct Headers {
    pub entries: Vec<(String, String)>,
}

impl Headers {
    /// No headers at all.
    pub fn new() -> (r: Headers)
        ensures
            r.entries@.len() == 0,
    {
        Headers { entries: Vec::new() }
    }

    /// The value stored under `name`, if any.
    pub fn get(&self, name: &str) -> (r: Option<&String>)
        ensures
            match r {
                Some(v) => spec_lookup(self.entries@, name@) == Some(v@),
                None => spec_lookup(self.entries@, name@) is None,
            },
    {
        let n = self.entries.len();
        proof {
            assert(self.entries@.skip(0) =~= self.entries@);
        }
        for i in 0..n
            invariant
                n == self.entries@.len(),
                spec_lookup(self.entries@, name@) == spec_lookup(
                    self.entries@.skip(i as int),
                    name@,
                ),
        {
            proof {
                assert(self.entries@.skip(i as int).drop_first() =~= self.entries@.skip(
                    i as int + 1,
                ));
            }
            if string_eq_str(&self.entries[i].0, name) {
                return Some(&self.entries[i].1);
            }
        }
        None
    }

    /// Stores `value` under `name`, overwriting any earlier value: lookups
    /// of `name` afterwards find exactly `value`, and every other name's
    /// lookup is unchanged.
    pub fn set(&mut self, name: String, value: String)
        ensures
            spec_lookup(final(self).entries@, name@) == Some(value@),
            forall|other: Seq<char>|
                other != name@ ==> spec_lookup(final(self).entries@, other) == spec_lookup(
                    old(self).entries@,
                    other,
                ),
    {
        let mut kept: Vec<(String, String)> = Vec::new();
        let n = self.entries.len();
        for i in 0..n
            invariant
                n == self.entries@.len(),
                forall|other: Seq<char>|
                    spec_lookup(#[trigger] kept@, other) == if other == name@ {
                        None::<Seq<char>>
                    } else {
                        spec_lookup(self.entries@.take(i as int), other)
                    },
        {
            let keep = !string_eq_str(&self.entries[i].0, name.as_str());
            let ghost prev = kept@;
            if keep {
                let pair = (self.entries[i].0.clone(), self.entries[i].1.clone());
                kept.push(pair);
            }
            proof {
                assert(self.entries@.take(i as int + 1) =~= self.entries@.take(i as int).push(
                    self.entries@[i as int],
                ));
                assert forall|other: Seq<char>|
                    spec_lookup(#[trigger] kept@, other) == (if other == name@ {
                        None::<Seq<char>>
                    } else {
                        spec_lookup(self.entries@.take(i as int + 1), other)
                    }) by {
                    lemma_lookup_push(prev, self.entries@[i as int], other, keep);
                    lemma_lookup_take_push(self.entries@, i as int, other);
                }
            }
        }
        proof {
            assert(self.entries@.take(n as int) =~= self.entries@);
        }
        let ghost before_push = kept@;
        kept.push((name, value));
        proof {
            assert forall|other: Seq<char>| #![auto] true implies {
                spec_lookup(kept@, other) == if other == name@ {
                    Some(value@)
                } else {
                    spec_lookup(self.entries@, other)
                }
            } by {
                lemma_lookup_append_one(before_push, (name, value), other);
            }
        }
        self.entries = kept;
    }
}

proof fn lemma_lookup_push(prev: Seq<(String, String)>, e: (String, String), other: Seq<char>, kept: bool)
    ensures
        spec_lookup(prev.push(e), other) == if spec_lookup(prev, other) is Some {
            spec_lookup(prev, other)
        } else if e.0@ == other {
            Some(e.1@)
        } else {
            None::<Seq<char>>
        },
    decreases prev.len(),
{
    let s = prev.push(e);
    assert(s.len() == prev.len() + 1);
    if prev.len() == 0 {
        assert(s[0] == e);
        assert(s.drop_first() =~= Seq::<(String, String)>::empty());
        assert(spec_lookup(s.drop_first(), other) is None) by {
            reveal_with_fuel(spec_lookup, 2);
        }
        assert(spec_lookup(prev, other) is None);
    } else {
        assert(s[0] == prev[0]);
        assert(s.drop_first() =~= prev.drop_first().push(e));
        lemma_lookup_push(prev.drop_first(), e, other, kept);
    }
}

proof fn lemma_lookup_take_push(entries: Seq<(String, String)>, i: int, other: Seq<char>)
    requires
        0 <= i < entries.len(),
    ensures
        spec_lookup(entries.take(i + 1), other) == if spec_lookup(entries.take(i), other)
            is Some {
            spec_lookup(entries.take(i), other)
        } else if entries[i].0@ == other {
            Some(entries[i].1@)
        } else {
            None::<Seq<char>>
        },
{
    assert(entries.take(i + 1) =~= entries.take(i).push(entries[i]));
    lemma_lookup_push(entries.take(i), entries[i], other, true);
}

proof fn lemma_lookup_append_one(prev: Seq<(String, String)>, e: (String, String), other: Seq<char>)
    ensures
        spec_lookup(prev.push(e), other) == if spec_lookup(prev, other) is Some {
            spec_lookup(prev, other)
        } else if e.0@ == other {
            Some(e.1@)
        } else {
            None::<Seq<char>>
        },
{
    lemma_lookup_push(prev, e, other, true);
}

/// Whether a stored name equals the name sought.
fn string_eq_str(a: &String, b: &str) -> (r: bool)
    ensures
        r == (a@ == b@),
{
    let owned: String = b.to_owned();
    a.eq(&owned)
}

/// The value of `header_name`, or `None` when the header is absent.
pub fn extract_from_header(headers: &Headers, header_name: &str) -> (r: Option<String>)
    ensures
        match r {
            Some(v) => spec_lookup(headers.entries@, header_name@) == Some(v@),
            None => spec_lookup(headers.entries@, header_name@) is None,
        },
{
    match headers.get(header_name) {
        Some(v) => Some(v.clone()),
        None => None,
    }
}

/// The value of `header_name`, or `HeaderNotFound` naming it when absent.
pub fn extract_from_required_header(headers: &Headers, header_name: &str) -> (r: Result<
    String,
    RequestError,
>)
    ensures
        match r {
            Ok(v) => spec_lookup(headers.entries@, header_name@) == Some(v@),
            Err(e) => spec_lookup(headers.entries@, header_name@) is None && (e matches
                RequestError::HeaderNotFound(h) && h@ == header_name@),
        },
{
    match extract_from_header(headers, header_name) {
        Some(v) => Ok(v),
        None => Err(RequestError::HeaderNotFound(header_name.to_owned())),
    }
}

/// The identifier held by `header_name`: `HeaderNotFound` when the header is
/// absent, `InvalidUUIDHeaderFormat` when its value does not read as an
/// identifier.
pub fn extract_uuid_from_required_header(headers: &Headers, header_name: &str) -> (r: Result<
    u128,
    RequestError,
>)
    ensures
        match r {
            Ok(u) => (spec_lookup(headers.entries@, header_name@) matches Some(v)
                && spec_parse_uuid_chars(v) == Some(u)),
            Err(e) => match e {
                RequestError::HeaderNotFound(h) => h@ == header_name@ && spec_lookup(
                    headers.entries@,
                    header_name@,
                ) is None,
                RequestError::InvalidUUIDHeaderFormat(h) => h@ == header_name@ && (spec_lookup(
                    headers.entries@,
                    header_name@,
                ) matches Some(v) && spec_parse_uuid_chars(v) is None),
                _ => false,
            },
        },
{
    let value = match extract_from_required_header(headers, header_name) {
        Ok(v) => v,
        Err(e) => {
            return Err(e);
        },
    };
    let bytes = value.as_str().as_bytes();
    match parse_uuid(bytes) {
        Some(u) => Ok(u),
        None => Err(RequestError::InvalidUUIDHeaderFormat(header_name.to_owned())),
    }
}

} // verus!
