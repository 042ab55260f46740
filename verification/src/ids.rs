//! Row identifiers.
//!
//! Inside the store model, rows are keyed by `u64` ids minted from the
//! store's allocation watermark. At the wire and API boundary, ids are
//! prefixed ULID strings; [`generate`] and [`gen_for_time`] mint those.
//! Beside each scheduled row a 32-bit non-cryptographic hash of its id is
//! stored for sharding; [`shard_hash`] computes it.

use vstd::prelude::*;

verus! {

/// The shard hash of a row id: a xor-shift mix of the id's bits, truncated
/// to 32 bits.
pub open spec fn spec_shard_hash(id: u64) -> u32 {
    (((id ^ (id >> 31) ^ (id << 17)) & 0xFFFF_FFFF) as u32)
}

/// Computes the 32-bit shard hash stored beside a scheduled row.
pub fn shard_hash(id: u64) -> (h: u32)
    ensures
        h == spec_shard_hash(id),
{
    ((id ^ (id >> 31) ^ (id << 17)) & 0xFFFF_FFFF) as u32
}

/// Relies on `ulid::Ulid::generate` and its `Display`: a fresh ULID renders
/// as exactly 26 characters. Which characters depends on the clock and on
/// randomness, so nothing more is promised.
#[verifier::external_body]
fn fresh_ulid() -> (r: String)
    ensures
        r@.len() == 26,
{
    ulid::Ulid::generate().to_string()
}

/// The ten characters a ULID renders its 48-bit time field in (Crockford
/// base 32, high bits first): a pure function of the instant.
pub uninterp spec fn ulid_time_prefix(millis: u64) -> Seq<char>;

/// Relies on `ulid::Ulid::from_datetime` and its `Display`: a ULID renders
/// as exactly 26 characters, the first ten of which encode the instant's
/// low 48 bits of milliseconds and nothing else; the remaining sixteen are
/// random, so nothing is promised of them.
#[verifier::external_body]
fn ulid_for_millis(millis: u64) -> (r: String)
    ensures
        r@.len() == 26,
        r@.subrange(0, 10) == ulid_time_prefix(millis & 0xFFFF_FFFF_FFFF),
{
    let at = std::time::UNIX_EPOCH + std::time::Duration::from_millis(millis);
    ulid::Ulid::from_datetime(at).to_string()
}

/// Mints a wire id: the prefix, an underscore, then a fresh ULID.
pub fn generate(prefix: &str) -> (r: String)
    ensures
        r@.len() == prefix@.len() + 27,
        r@.subrange(0, prefix@.len() as int) == prefix@,
        r@[prefix@.len() as int] == '_',
{
    proof {
        reveal_strlit("_");
    }
    let mut s = String::from_str(prefix);
    s.append("_");
    let u = fresh_ulid();
    s.append(u.as_str());
    proof {
        assert(s@.subrange(0, prefix@.len() as int) =~= prefix@);
    }
    s
}

/// Mints a wire id whose ULID's time bits come from the given instant: the
/// prefix, an underscore, then that ULID. The ten characters after the
/// underscore render the instant, so ordering ids of one prefix
/// lexicographically approximates ordering by fire time.
pub fn gen_for_time(prefix: &str, millis: u64) -> (r: String)
    ensures
        r@.len() == prefix@.len() + 27,
        r@.subrange(0, prefix@.len() as int) == prefix@,
        r@[prefix@.len() as int] == '_',
        r@.subrange(prefix@.len() as int + 1, prefix@.len() as int + 11) == ulid_time_prefix(
            millis & 0xFFFF_FFFF_FFFF,
        ),
{
    proof {
        reveal_strlit("_");
    }
    let mut s = String::from_str(prefix);
    s.append("_");
    let u = ulid_for_millis(millis);
    s.append(u.as_str());
    proof {
        assert(s@.subrange(0, prefix@.len() as int) =~= prefix@);
        assert(s@.subrange(prefix@.len() as int + 1, prefix@.len() as int + 11) =~= u@.subrange(0, 10));
    }
    s
}

} // verus!
