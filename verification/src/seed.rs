//! Seed identities and the encoding of the version a seed installed at.
//!
//! A seed is named by the hash of the bytes actually fetched, so two
//! devices installing the same seed converge on one entity. The version
//! it committed at is stored as the base58 text of its key bytes, which
//! decodes back to those bytes.

use vstd::prelude::*;
use vstd::string::StringSliceAdditionalSpecFns;
use crate::text::{chars_of, has_prefix, starts_with, str_eq, string_of};

verus! {

/// The entity standing for "no seed yet": what a first install records as
/// its predecessor.
pub const SEED_NONE: &'static str = "seed:none";

/// The lowercase hex BLAKE3 digest of a byte string.
pub uninterp spec fn blake3_hex_digest(bytes: Seq<u8>) -> Seq<char>;

/// Whether `c` is a lowercase hex digit.
pub open spec fn is_lower_hex(c: char) -> bool {
    ('0' <= c && c <= '9') || ('a' <= c && c <= 'f')
}

/// `blake3::hash(bytes).to_hex()`: the 32-byte digest of `bytes` as 64
/// lowercase hex digits.
#[verifier::external_body]
fn blake3_hex(bytes: &[u8]) -> (r: String)
    ensures
        r@ == blake3_hex_digest(bytes@),
        r@.len() == 64,
        forall|i: int| 0 <= i < r@.len() ==> is_lower_hex(#[trigger] r@[i]),
{
    blake3::hash(bytes).to_hex().to_string()
}

/// The seed entity for the fetched `source` bytes: `seed:` and their
/// BLAKE3 hex digest. Equal bytes give equal identities.
pub fn seed_version(source: &str) -> (r: String)
    ensures
        r@ == "seed:"@ + blake3_hex_digest(source.spec_bytes()),
        r@.len() == 69,
{
    let digest = blake3_hex(source.as_bytes());
    let mut r = String::from_str("seed:");
    r.append(digest.as_str());
    proof {
        reveal_strlit("seed:");
    }
    r
}

/// The base58 text `base58`'s `ToBase58` gives a byte string.
pub uninterp spec fn base58_text(bytes: Seq<u8>) -> Seq<char>;

/// The bytes `base58`'s `FromBase58` decodes a text to, or `None` when it
/// refuses the text.
pub uninterp spec fn base58_bytes(text: Seq<char>) -> Option<Seq<u8>>;

/// How many `1`s (encoded zero bytes) a text starts with.
pub open spec fn leading_ones(text: Seq<char>) -> nat
    decreases text.len(),
{
    if text.len() > 0 && text[0] == '1' {
        1 + leading_ones(text.drop_first())
    } else {
        0
    }
}

/// The digits of `text` after its leading `1`s.
pub open spec fn digits_after_ones(text: Seq<char>) -> Seq<char> {
    text.subrange(leading_ones(text) as int, text.len() as int)
}

/// Whether the decoder's 132-byte buffer holds what `text` decodes to:
/// a text with no leading `1` always fits; otherwise its encoded zero
/// bytes together with the bytes its further digits decode to (when they
/// decode) number at most 132. (Past that the decoder overruns its
/// buffer while restoring the zero bytes.)
pub open spec fn fits_decoder(text: Seq<char>) -> bool {
    leading_ones(text) == 0 || (base58_bytes(digits_after_ones(text)) matches Some(b) ==> leading_ones(text) + b.len()
        <= 132)
}

/// Whether `c` is a digit of the Bitcoin base58 alphabet: `1`–`9`, `A`–`Z`
/// without `I` and `O`, `a`–`z` without `l`.
pub open spec fn is_base58_char(c: char) -> bool {
    ||| '1' <= c && c <= '9'
    ||| 'A' <= c && c <= 'H'
    ||| 'J' <= c && c <= 'N'
    ||| 'P' <= c && c <= 'Z'
    ||| 'a' <= c && c <= 'k'
    ||| 'm' <= c && c <= 'z'
}

/// Whether some character of `text` is not a base58 digit.
pub open spec fn has_foreign_char(text: Seq<char>) -> bool {
    exists|i: int| 0 <= i < text.len() && !is_base58_char(#[trigger] text[i])
}

/// `<[u8] as base58::ToBase58>::to_base58`. Its text decodes back to the
/// bytes for byte strings of up to 132 bytes, the decoder's buffer: such a
/// text fits it.
#[verifier::external_body]
fn to_base58(bytes: &[u8]) -> (r: String)
    ensures
        r@ == base58_text(bytes@),
        bytes@.len() <= 132 ==> fits_decoder(r@) && base58_bytes(r@) == Some(bytes@),
{
    base58::ToBase58::to_base58(bytes)
}

/// `<str as base58::FromBase58>::from_base58`, for a text whose decoding
/// fits the decoder's buffer. A character outside the base58 alphabet
/// makes it fail.
#[verifier::external_body]
fn from_base58(text: &str) -> (r: Option<Vec<u8>>)
    requires
        fits_decoder(text@),
    ensures
        match r {
            Some(v) => base58_bytes(text@) == Some(v@),
            None => base58_bytes(text@) is None,
        },
        has_foreign_char(text@) ==> r is None,
{
    match base58::FromBase58::from_base58(text) {
        Ok(v) => Some(v),
        Err(_) => None,
    }
}

/// A version's key bytes, encoded for the seed record.
pub fn encode_seed_version(key_bytes: &[u8]) -> (r: String)
    ensures
        r@ == base58_text(key_bytes@),
        key_bytes@.len() <= 132 ==> fits_decoder(r@) && base58_bytes(r@) == Some(key_bytes@),
{
    to_base58(key_bytes)
}

fn count_leading_ones(v: &Vec<char>) -> (n: usize)
    ensures
        n == leading_ones(v@),
        n <= v@.len(),
        n < v@.len() ==> v@[n as int] != '1',
{
    let mut i: usize = 0;
    assert(v@.subrange(0, v@.len() as int) =~= v@);
    while i < v.len() && v[i] == '1'
        invariant
            i <= v@.len(),
            leading_ones(v@) == i + leading_ones(v@.subrange(i as int, v@.len() as int)),
        decreases v@.len() - i,
    {
        let ghost rest = v@.subrange(i as int, v@.len() as int);
        assert(rest.drop_first() =~= v@.subrange(i + 1, v@.len() as int));
        i = i + 1;
    }
    proof {
        let rest = v@.subrange(i as int, v@.len() as int);
        if i < v@.len() {
            assert(rest[0] == v@[i as int]);
        }
    }
    i
}

/// The key bytes a recorded version text decodes to; `None` for a text
/// that is not base58 or whose decoding would not fit the decoder's
/// buffer.
pub fn decode_seed_version(encoded: &str) -> (r: Option<Vec<u8>>)
    ensures
        match r {
            Some(v) => fits_decoder(encoded@) && base58_bytes(encoded@) == Some(v@),
            None => !fits_decoder(encoded@) || base58_bytes(encoded@) is None,
        },
        has_foreign_char(encoded@) ==> r is None,
{
    let chars = chars_of(encoded);
    let z = count_leading_ones(&chars);
    if z == 0 {
        return from_base58(encoded);
    }
    let digits = string_of(&chars, z, chars.len());
    proof {
        assert(digits@ == digits_after_ones(encoded@));
        if digits@.len() > 0 {
            assert(digits@[0] == chars@[z as int]);
        }
        assert(leading_ones(digits@) == 0);
    }
    match from_base58(digits.as_str()) {
        None => from_base58(encoded),
        Some(b) => {
            if b.len() <= 132 && z <= 132 - b.len() {
                from_base58(encoded)
            } else {
                None
            }
        },
    }
}

/// The text `bs58::encode(..).into_string()` gives a byte string.
pub uninterp spec fn bs58_text(bytes: Seq<u8>) -> Seq<char>;

/// `bs58::encode(bytes).into_string()`, with the Bitcoin alphabet.
#[verifier::external_body]
pub(crate) fn bs58_encode(bytes: &[u8]) -> (r: String)
    ensures
        r@ == bs58_text(bytes@),
{
    bs58::encode(bytes).into_string()
}

/// `did:key:`, the prefix of a full key spelling.
pub open spec fn did_key_prefix() -> Seq<char> {
    seq!['d', 'i', 'd', ':', 'k', 'e', 'y', ':']
}

/// The other spelling of a replica key: legacy mounts used the bare
/// suffix, newer ones the full `did:key:` URI.
pub open spec fn alternate_key_of(key: Seq<char>) -> Seq<char> {
    if has_prefix(key, did_key_prefix()) {
        key.subrange(8, key.len() as int)
    } else {
        did_key_prefix() + key
    }
}

/// The other spelling of a replica key.
pub fn alternate_key(key: &str) -> (r: String)
    ensures
        r@ == alternate_key_of(key@),
{
    let k = chars_of(key);
    let p = vec!['d', 'i', 'd', ':', 'k', 'e', 'y', ':'];
    assert(p@ =~= did_key_prefix());
    if starts_with(&k, &p) {
        string_of(&k, 8, k.len())
    } else {
        let mut r = string_of(&p, 0, 8);
        r.append(key);
        assert(p@.subrange(0, 8) =~= p@);
        r
    }
}

/// The seed record a space carries: the installed seed entity and the
/// source it was fetched from.
#[derive(Clone, Debug)]
pub struct InstalledSeed {
    pub seed: String,
    pub source: String,
}

/// A seed a check found waiting, and the installed one it supersedes.
#[derive(Clone, Debug)]
pub struct FoundSeed {
    /// The waiting seed: the identity of the fetched bytes.
    pub seed: String,
    /// Where those bytes came from.
    pub source: String,
    /// The installed seed it would replace.
    pub replaces: String,
}

/// What an update check concludes from the installed record and the
/// bytes fetched from its source: nothing when no seed is recorded (an
/// upgrade could not know what to withdraw) or when the fetched bytes are
/// the installed seed; otherwise the waiting seed.
pub fn seed_check_outcome(installed: Option<InstalledSeed>, fetched: &str) -> (r: Option<FoundSeed>)
    ensures
        match installed {
            None => r is None,
            Some(cur) => {
                let fresh = "seed:"@ + blake3_hex_digest(fetched.spec_bytes());
                if fresh == cur.seed@ {
                    r is None
                } else {
                    r matches Some(f) && f.seed@ == fresh && f.source == cur.source && f.replaces == cur.seed
                }
            },
        },
{
    match installed {
        None => None,
        Some(cur) => {
            let fresh = seed_version(fetched);
            if str_eq(fresh.as_str(), cur.seed.as_str()) {
                None
            } else {
                Some(FoundSeed { seed: fresh, source: cur.source, replaces: cur.seed })
            }
        },
    }
}

/// One record of a revision's changelog: whether it asserted or
/// retracted, and the claim's attribute and entity.
#[derive(Clone, Debug)]
pub struct HistoryRecord {
    pub assertion: bool,
    pub attribute: String,
    pub entity: String,
}

/// The records an upgrade withdraws from the seed installed at a version:
/// its assertions only. (An install also carries the retractions of the
/// seed before it; inverting those would restore the version before
/// last.)
pub fn prior_seed_retractions(records: &Vec<HistoryRecord>) -> (r: Vec<HistoryRecord>)
    ensures
        r@ == records@.filter(|h: HistoryRecord| h.assertion),
{
    let mut out: Vec<HistoryRecord> = Vec::new();
    let mut i: usize = 0;
    while i < records.len()
        invariant
            i <= records@.len(),
            out@ == records@.subrange(0, i as int).filter(|h: HistoryRecord| h.assertion),
        decreases records@.len() - i,
    {
        proof {
            let pre = records@.subrange(0, i + 1);
            assert(pre.drop_last() =~= records@.subrange(0, i as int));
            reveal(Seq::filter);
        }
        if records[i].assertion {
            let h = &records[i];
            out.push(HistoryRecord { assertion: h.assertion, attribute: h.attribute.clone(), entity: h.entity.clone() });
        }
        i = i + 1;
    }
    assert(records@.subrange(0, records@.len() as int) =~= records@);
    out
}

/// Whether `e` is a route the seed installed: some assertion among
/// `records` sets a route path on it.
pub open spec fn seeded_route(records: Seq<HistoryRecord>, e: Seq<char>) -> bool {
    exists|i: int|
        0 <= i < records.len() && (#[trigger] records[i]).assertion && records[i].attribute@ == "xyz.tonk.route/path"@
            && records[i].entity@ == e
}

/// The routes the seed installed at a version, each once: the entities
/// its assertions gave a route path.
pub fn seed_routes(records: &Vec<HistoryRecord>) -> (r: Vec<String>)
    ensures
        forall|e: Seq<char>| (exists|k: int| 0 <= k < r@.len() && (#[trigger] r@[k])@ == e) <==> seeded_route(records@, e),
        forall|a: int, b: int| 0 <= a < b < r@.len() ==> (#[trigger] r@[a])@ != (#[trigger] r@[b])@,
{
    let mut out: Vec<String> = Vec::new();
    let mut i: usize = 0;
    while i < records.len()
        invariant
            i <= records@.len(),
            forall|e: Seq<char>| (exists|k: int| 0 <= k < out@.len() && (#[trigger] out@[k])@ == e) <==> seeded_route(
                records@.subrange(0, i as int),
                e,
            ),
            forall|a: int, b: int| 0 <= a < b < out@.len() ==> (#[trigger] out@[a])@ != (#[trigger] out@[b])@,
        decreases records@.len() - i,
    {
        let h = &records[i];
        let ghost sub = records@.subrange(0, i as int);
        let ghost next = records@.subrange(0, i + 1);
        proof {
            assert forall|e: Seq<char>| seeded_route(next, e) <==> (seeded_route(sub, e) || (h.assertion
                && h.attribute@ == "xyz.tonk.route/path"@ && h.entity@ == e)) by {
                if seeded_route(next, e) {
                    let j = choose|j: int|
                        0 <= j < next.len() && (#[trigger] next[j]).assertion && next[j].attribute@
                            == "xyz.tonk.route/path"@ && next[j].entity@ == e;
                    if j < i {
                        assert(sub[j] == next[j]);
                    }
                }
                if seeded_route(sub, e) {
                    let j = choose|j: int|
                        0 <= j < sub.len() && (#[trigger] sub[j]).assertion && sub[j].attribute@
                            == "xyz.tonk.route/path"@ && sub[j].entity@ == e;
                    assert(next[j] == sub[j]);
                }
                if h.assertion && h.attribute@ == "xyz.tonk.route/path"@ && h.entity@ == e {
                    assert(next[i as int] == *h);
                }
            }
        }
        if h.assertion && str_eq(h.attribute.as_str(), "xyz.tonk.route/path") {
            let mut seen = false;
            let mut k: usize = 0;
            while k < out.len()
                invariant
                    k <= out@.len(),
                    seen == exists|j: int| 0 <= j < k && (#[trigger] out@[j])@ == h.entity@,
                decreases out@.len() - k,
            {
                if str_eq(out[k].as_str(), h.entity.as_str()) {
                    seen = true;
                }
                k = k + 1;
            }
            if !seen {
                let ghost before = out@;
                out.push(h.entity.clone());
                proof {
                    assert forall|e: Seq<char>| (exists|k: int| 0 <= k < out@.len() && (#[trigger] out@[k])@ == e) <==> seeded_route(next, e) by {
                        if exists|k: int| 0 <= k < out@.len() && (#[trigger] out@[k])@ == e {
                            let k = choose|k: int| 0 <= k < out@.len() && (#[trigger] out@[k])@ == e;
                            if k < before.len() {
                                assert(before[k] == out@[k]);
                            }
                        }
                        if seeded_route(sub, e) {
                            let k = choose|k: int| 0 <= k < before.len() && (#[trigger] before[k])@ == e;
                            assert(out@[k] == before[k]);
                        }
                        if e == h.entity@ {
                            assert(out@[before.len() as int]@ == e);
                        }
                    }
                    assert forall|a: int, b: int| 0 <= a < b < out@.len() implies (#[trigger] out@[a])@ != (#[trigger] out@[b])@ by {
                        if b < before.len() {
                            assert(out@[a] == before[a] && out@[b] == before[b]);
                        } else {
                            assert(out@[a] == before[a]);
                        }
                    }
                }
            }
        }
        i = i + 1;
    }
    assert(records@.subrange(0, records@.len() as int) =~= records@);
    out
}

} // verus!
