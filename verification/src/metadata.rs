//! Metadata codec: a deliberately narrow flat-key extractor over the
//! trailing text region of a container.
//!
//! Parsing looks for five fixed `"key":"` patterns independently and takes
//! the characters up to the next double quote; nothing else of the text is
//! interpreted, and unmatched keys are simply absent. Serialization emits
//! exactly the present fields, comma-joined inside one pair of braces.

use vstd::prelude::*;
use vstd::string::*;
use vstd::utf8::{decode_utf8, encode_utf8, encode_utf8_decode_utf8, valid_utf8};

use crate::errors::AliceError;

verus! {

/// First position at or after `i` where `pat` occurs in `s`.
pub open spec fn spec_find_from(s: Seq<char>, pat: Seq<char>, i: int) -> Option<int>
    decreases s.len() + 1 - i,
{
    if i < 0 || i + pat.len() > s.len() {
        None
    } else if s.subrange(i, i + pat.len() as int) == pat {
        Some(i)
    } else {
        spec_find_from(s, pat, i + 1)
    }
}

/// First position where `pat` occurs in `s`.
pub open spec fn spec_find(s: Seq<char>, pat: Seq<char>) -> Option<int> {
    spec_find_from(s, pat, 0)
}

/// The field value for `key`: the characters between the end of the first
/// occurrence of `key` and the next double quote; absent when either is
/// not found.
pub open spec fn spec_field(s: Seq<char>, key: Seq<char>) -> Option<Seq<char>> {
    match spec_find(s, key) {
        None => None,
        Some(i) => {
            let rest = s.subrange(i + key.len() as int, s.len() as int);
            match spec_find(rest, seq!['"']) {
                None => None,
                Some(j) => Some(rest.subrange(0, j)),
            }
        },
    }
}

/// Whether `pat` occurs in `s` starting exactly at `i`.
fn match_at(s: &str, pat: &str, i: usize, slen: usize, plen: usize) -> (r: bool)
    requires
        slen == s@.len(),
        plen == pat@.len(),
        i + plen <= slen,
    ensures
        r == (s@.subrange(i as int, i as int + pat@.len() as int) == pat@),
{
    let mut j: usize = 0;
    while j < plen
        invariant
            slen == s@.len(),
            plen == pat@.len(),
            i + plen <= slen,
            j <= plen,
            forall|k: int| 0 <= k < j ==> s@[i + k] == pat@[k],
        decreases plen - j,
    {
        if s.get_char(i + j) != pat.get_char(j) {
            proof {
                assert(s@.subrange(i as int, i as int + pat@.len() as int)[j as int] != pat@[
                    j as int]);
            }
            return false;
        }
        j = j + 1;
    }
    proof {
        assert(s@.subrange(i as int, i as int + pat@.len() as int) =~= pat@);
    }
    true
}

/// Position of the first occurrence of `pat` in `s`, by characters.
fn find_str(s: &str, pat: &str) -> (r: Option<usize>)
    ensures
        match r {
            Some(i) => spec_find(s@, pat@) == Some(i as int) && i + pat@.len() <= s@.len(),
            None => spec_find(s@, pat@) is None,
        },
{
    let slen = s.unicode_len();
    let plen = pat.unicode_len();
    if plen > slen {
        proof {
            assert(spec_find_from(s@, pat@, 0) is None);
        }
        return None;
    }
    if plen == 0 {
        proof {
            assert(s@.subrange(0, 0) =~= pat@);
        }
        return Some(0);
    }
    let mut i: usize = 0;
    while i <= slen - plen
        invariant
            slen == s@.len(),
            plen == pat@.len(),
            1 <= plen <= slen,
            i <= slen,
            spec_find(s@, pat@) == spec_find_from(s@, pat@, i as int),
        decreases slen - i,
    {
        if match_at(s, pat, i, slen, plen) {
            return Some(i);
        }
        i = i + 1;
    }
    None
}

/// The value of `key` in `s`, as its own string.
fn extract_field(s: &str, key: &str) -> (r: Option<String>)
    ensures
        r.deep_view() == spec_field(s@, key@),
{
    let slen = s.unicode_len();
    let klen = key.unicode_len();
    match find_str(s, key) {
        None => None,
        Some(i) => {
            let rest = s.substring_char(i + klen, slen);
            match find_str(rest, "\"") {
                None => {
                    proof {
                        reveal_strlit("\"");
                        assert(spec_find(rest@, seq!['"']) is None) by {
                            assert("\""@ =~= seq!['"']);
                        };
                    }
                    None
                },
                Some(j) => {
                    let v = rest.substring_char(0, j).to_owned();
                    proof {
                        reveal_strlit("\"");
                        assert("\""@ =~= seq!['"']);
                        assert(spec_field(s@, key@) == Some(v@));
                    }
                    Some(v)
                },
            }
        },
    }
}

/// Relies on `str::from_utf8`: it succeeds exactly on valid UTF-8, and the
/// returned slice views the same bytes.
#[verifier::external_body]
fn utf8_to_str(v: &[u8]) -> (r: Option<&str>)
    ensures
        match r {
            Some(s) => valid_utf8(v@) && s.spec_bytes() == v@,
            None => !valid_utf8(v@),
        },
{
    core::str::from_utf8(v).ok()
}

/// Named metadata fields of a container. `custom` carries the whole
/// metadata text as parsed, for display.
#[derive(Debug, Clone)]
pub struct AliceMetadata {
    /// Sensor ID.
    pub sensor_id: Option<String>,
    /// Timestamp text.
    pub timestamp: Option<String>,
    /// Location.
    pub location: Option<String>,
    /// Unit of measurement.
    pub unit: Option<String>,
    /// Description.
    pub description: Option<String>,
    /// The whole metadata text, when one was parsed.
    pub custom: Option<String>,
}

impl Default for AliceMetadata {
    /// The all-absent metadata value.
    fn default() -> (r: AliceMetadata)
        ensures
            r.sensor_id is None,
            r.timestamp is None,
            r.location is None,
            r.unit is None,
            r.description is None,
            r.custom is None,
    {
        AliceMetadata {
            sensor_id: None,
            timestamp: None,
            location: None,
            unit: None,
            description: None,
            custom: None,
        }
    }
}

/// What a metadata value parsed from `data` holds: nothing for empty
/// input, and otherwise the five independent key extractions over the
/// decoded text, with `custom` carrying the whole text.
pub open spec fn spec_meta_matches(m: AliceMetadata, data: Seq<u8>) -> bool {
    if data.len() == 0 {
        m.sensor_id is None && m.timestamp is None && m.location is None && m.unit is None
            && m.description is None && m.custom is None
    } else {
        valid_utf8(data) && {
            let chars = decode_utf8(data);
            m.sensor_id.deep_view() == spec_field(chars, "\"sensor_id\":\""@)
                && m.timestamp.deep_view() == spec_field(chars, "\"timestamp\":\""@)
                && m.location.deep_view() == spec_field(chars, "\"location\":\""@)
                && m.unit.deep_view() == spec_field(chars, "\"unit\":\""@)
                && m.description.deep_view() == spec_field(chars, "\"description\":\""@)
                && m.custom.deep_view() == Some(chars)
        }
    }
}

/// One serialized field: the `"key":"` pattern, the value, and the
/// closing quote.
pub open spec fn spec_json_entry(key: Seq<char>, value: Seq<char>) -> Seq<char> {
    key + value + seq!['"']
}

/// The serialized entries of one optional field: none, or one.
pub open spec fn spec_opt_entry(key: Seq<char>, v: Option<Seq<char>>) -> Seq<Seq<char>> {
    match v {
        None => Seq::empty(),
        Some(value) => seq![spec_json_entry(key, value)],
    }
}

/// Comma-joined concatenation.
pub open spec fn spec_joined(entries: Seq<Seq<char>>) -> Seq<char>
    decreases entries.len(),
{
    if entries.len() == 0 {
        Seq::empty()
    } else if entries.len() == 1 {
        entries[0]
    } else {
        entries[0] + seq![','] + spec_joined(entries.drop_first())
    }
}

/// The entries of the present named fields, in serialization order.
pub open spec fn spec_meta_entries(m: AliceMetadata) -> Seq<Seq<char>> {
    spec_opt_entry("\"sensor_id\":\""@, m.sensor_id.deep_view()) + spec_opt_entry(
        "\"timestamp\":\""@,
        m.timestamp.deep_view(),
    ) + spec_opt_entry("\"location\":\""@, m.location.deep_view()) + spec_opt_entry(
        "\"unit\":\""@,
        m.unit.deep_view(),
    ) + spec_opt_entry("\"description\":\""@, m.description.deep_view())
}

/// The metadata text a value serializes to: the present named fields,
/// comma-joined, in one pair of braces.
pub open spec fn spec_meta_json(m: AliceMetadata) -> Seq<char> {
    seq!['{'] + spec_joined(spec_meta_entries(m)) + seq!['}']
}

/// Joining entries left to right: appending one more entry to a non-empty
/// join adds a comma and the entry.
proof fn lemma_joined_push(entries: Seq<Seq<char>>, e: Seq<char>)
    ensures
        entries.len() == 0 ==> spec_joined(entries.push(e)) == e,
        entries.len() > 0 ==> spec_joined(entries.push(e)) == spec_joined(entries) + seq![','] + e,
    decreases entries.len(),
{
    if entries.len() == 0 {
        assert(entries.push(e)[0] == e);
        assert(spec_joined(entries.push(e)) == e);
    } else {
        lemma_joined_push(entries.drop_first(), e);
        assert(entries.push(e).drop_first() =~= entries.drop_first().push(e));
        if entries.len() == 1 {
            assert(spec_joined(entries.push(e)) == entries[0] + seq![','] + e);
        } else {
            assert(spec_joined(entries) + seq![','] + e =~= entries[0] + seq![','] + (spec_joined(
                entries.drop_first(),
            ) + seq![','] + e));
        }
    }
}

impl AliceMetadata {
    /// Parse metadata bytes. Zero-length input gives the all-absent value;
    /// anything else must be valid UTF-8 (`InvalidEncoding` otherwise),
    /// after which each of the five fixed keys is searched independently.
    pub fn parse(data: &[u8]) -> (r: Result<AliceMetadata, AliceError>)
        ensures
            match r {
                Ok(m) => spec_meta_matches(m, data@),
                Err(e) => e == AliceError::InvalidEncoding && data@.len() > 0 && !valid_utf8(
                    data@,
                ),
            },
    {
        if data.len() == 0 {
            return Ok(AliceMetadata::default());
        }
        let text = match utf8_to_str(data) {
            Some(s) => s,
            None => {
                return Err(AliceError::InvalidEncoding);
            },
        };
        proof {
            encode_utf8_decode_utf8(text@);
            assert(decode_utf8(data@) == text@);
        }
        let sensor_id = extract_field(text, "\"sensor_id\":\"");
        let timestamp = extract_field(text, "\"timestamp\":\"");
        let location = extract_field(text, "\"location\":\"");
        let unit = extract_field(text, "\"unit\":\"");
        let description = extract_field(text, "\"description\":\"");
        let custom = Some(text.to_owned());
        Ok(AliceMetadata { sensor_id, timestamp, location, unit, description, custom })
    }

    /// Serialize the present named fields as flat text. Only the five
    /// named fields are emitted; `custom` is display-only and not
    /// re-serialized.
    pub fn to_json(&self) -> (r: Vec<u8>)
        ensures
            r@ == encode_utf8(spec_meta_json(*self)),
    {
        let mut parts: Vec<String> = Vec::new();
        if let Some(id) = &self.sensor_id {
            let mut e = "\"sensor_id\":\"".to_owned();
            e.append(id.as_str());
            e.append("\"");
            parts.push(e);
        }
        if let Some(ts) = &self.timestamp {
            let mut e = "\"timestamp\":\"".to_owned();
            e.append(ts.as_str());
            e.append("\"");
            parts.push(e);
        }
        if let Some(loc) = &self.location {
            let mut e = "\"location\":\"".to_owned();
            e.append(loc.as_str());
            e.append("\"");
            parts.push(e);
        }
        if let Some(unit) = &self.unit {
            let mut e = "\"unit\":\"".to_owned();
            e.append(unit.as_str());
            e.append("\"");
            parts.push(e);
        }
        if let Some(desc) = &self.description {
            let mut e = "\"description\":\"".to_owned();
            e.append(desc.as_str());
            e.append("\"");
            parts.push(e);
        }
        proof {
            reveal_strlit("\"");
            assert("\""@ =~= seq!['"']);
            assert(parts.deep_view() =~= spec_meta_entries(*self));
        }
        let mut s = "{".to_owned();
        let mut k: usize = 0;
        while k < parts.len()
            invariant
                k <= parts@.len(),
                parts.deep_view() == spec_meta_entries(*self),
                k == 0 ==> s@ == "{"@,
                k > 0 ==> s@ == "{"@ + spec_joined(parts.deep_view().take(k as int)),
            decreases parts@.len() - k,
        {
            if k > 0 {
                s.append(",");
            }
            s.append(parts[k].as_str());
            proof {
                reveal_strlit(",");
                lemma_joined_push(parts.deep_view().take(k as int), parts.deep_view()[k as int]);
                assert(parts.deep_view().take(k as int).push(parts.deep_view()[k as int])
                    =~= parts.deep_view().take(k as int + 1));
                assert(parts.deep_view()[k as int] == parts@[k as int]@);
                if k == 0 {
                    assert(s@ =~= "{"@ + spec_joined(parts.deep_view().take(1)));
                } else {
                    assert(s@ =~= "{"@ + spec_joined(parts.deep_view().take(k as int + 1)));
                }
            }
            k = k + 1;
        }
        s.append("}");
        proof {
            reveal_strlit("{");
            reveal_strlit("}");
            assert(parts.deep_view().take(parts.deep_view().len() as int) =~= parts.deep_view());
            assert(s@ =~= spec_meta_json(*self));
        }
        let out = s.as_str().as_bytes_vec();
        proof {
            assert(out@ == encode_utf8(spec_meta_json(*self)));
        }
        out
    }
}

} // verus!
