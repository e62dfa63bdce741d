//! The course-name field: 33 big-endian UCS-2 code units, the name first,
//! then zeros.
use vstd::prelude::*;

use crate::bytes::{be16, concat_all, get_be16, lemma_be16_read, lemma_concat_all, push_be16, read_be16};
use crate::Error;

verus! {

/// Code units in the name field, the terminator included.
pub const NAME_UNITS: usize = 33;

/// Size in bytes of the name field.
pub const NAME_FIELD_SIZE: usize = 66;

/// Longest name that the field holds.
pub const MAX_NAME_CHARS: usize = 32;

/// A character of the basic multilingual plane, which one code unit holds
/// (scalar values skip the surrogate range).
pub open spec fn is_bmp(c: char) -> bool {
    (c as u32) < 0xD800 || (0xE000 <= (c as u32) && (c as u32) < 0x10000)
}

/// A code unit that stands for half of a surrogate pair, never a character.
pub open spec fn is_surrogate(u: u16) -> bool {
    0xD800 <= u <= 0xDFFF
}

/// A name fits the field: at most 32 characters, each of the basic plane.
pub open spec fn name_encodable(s: Seq<char>) -> bool {
    s.len() <= MAX_NAME_CHARS && forall|i: int| 0 <= i < s.len() ==> is_bmp(#[trigger] s[i])
}

/// Code unit `k` of the field that holds `s`: its characters, then zeros.
pub open spec fn name_unit(s: Seq<char>, k: int) -> u16 {
    if 0 <= k < s.len() {
        (s[k] as u32) as u16
    } else {
        0u16
    }
}

/// The first `n` code units of the field, each big-endian.
pub open spec fn name_units_image(s: Seq<char>, n: nat) -> Seq<u8> {
    concat_all(Seq::new(n, |k: int| be16(name_unit(s, k))))
}

/// The 66-byte wire form of a name.
pub open spec fn name_field(s: Seq<char>) -> Seq<u8> {
    name_units_image(s, NAME_UNITS as nat)
}

/// The 33 code units that a 66-byte field holds.
pub open spec fn units_of(f: Seq<u8>) -> Seq<u16> {
    Seq::new(NAME_UNITS as nat, |k: int| read_be16(f, 2 * k))
}

/// Index of the first zero unit at or after `k`, or the length if none.
pub open spec fn first_zero(u: Seq<u16>, k: int) -> int
    decreases u.len() - k,
{
    if k < 0 || k >= u.len() {
        u.len() as int
    } else if u[k] == 0 {
        k
    } else {
        first_zero(u, k + 1)
    }
}

/// Number of characters in the name that a field holds.
pub open spec fn name_length(f: Seq<u8>) -> int {
    first_zero(units_of(f), 0)
}

/// A field decodes when no unit before the first zero is a surrogate.
pub open spec fn name_decodable(f: Seq<u8>) -> bool {
    forall|k: int| 0 <= k < name_length(f) ==> !is_surrogate(#[trigger] units_of(f)[k])
}

/// `s` is the name that field `f` holds: the characters of the units
/// before the first zero.
pub open spec fn name_decodes_to(f: Seq<u8>, s: Seq<char>) -> bool {
    &&& s.len() == name_length(f)
    &&& forall|k: int| 0 <= k < s.len() ==> (#[trigger] s[k] as u32) == units_of(f)[k] as u32
}

/// Relies on ucs2::encode: each character of the basic plane becomes the
/// code unit of the same value; a character outside it, or more than `cap`
/// characters, makes it fail.
#[verifier::external_body]
fn ucs2_encode(s: &str, cap: usize) -> (r: Option<Vec<u16>>)
    ensures
        r is Some <==> (s@.len() <= cap && forall|i: int| 0 <= i < s@.len() ==> is_bmp(#[trigger] s@[i])),
        r matches Some(v) ==> v@.len() == s@.len() && forall|i: int|
            0 <= i < s@.len() ==> (#[trigger] v@[i]) as u32 == s@[i] as u32,
{
    let mut units = vec![0u16; cap];
    match ucs2::encode(s, &mut units) {
        Ok(n) => {
            units.truncate(n);
            Some(units)
        },
        Err(_) => None,
    }
}

/// Relies on ucs2::decode, which writes the UTF-8 form of each code unit;
/// String::from_utf8 turns those bytes into the string, and refuses them
/// where a unit is a surrogate.
#[verifier::external_body]
fn ucs2_decode(units: &[u16]) -> (r: Option<String>)
    requires
        units@.len() <= NAME_UNITS,
    ensures
        r is Some <==> forall|i: int| 0 <= i < units@.len() ==> !is_surrogate(#[trigger] units@[i]),
        r matches Some(s) ==> s@.len() == units@.len() && forall|i: int|
            0 <= i < units@.len() ==> (#[trigger] s@[i]) as u32 == units@[i] as u32,
{
    let mut bytes = vec![0u8; units.len() * 3];
    match ucs2::decode(units, &mut bytes) {
        Ok(n) => {
            bytes.truncate(n);
            String::from_utf8(bytes).ok()
        },
        Err(_) => None,
    }
}

/// Encodes a name into its 66-byte field; a name of more than 32
/// characters, or with a character outside the basic plane, is refused.
pub fn encode_name(name: &str) -> (r: Result<Vec<u8>, Error>)
    ensures
        r is Ok <==> name_encodable(name@),
        r matches Ok(b) ==> b@ == name_field(name@),
        !name_encodable(name@) ==> r == Err::<Vec<u8>, Error>(Error::InvalidName),
{
    let units = match ucs2_encode(name, MAX_NAME_CHARS) {
        Some(units) => units,
        None => {
            return Err(Error::InvalidName);
        },
    };
    let mut buf: Vec<u8> = Vec::new();
    let mut k: usize = 0;
    while k < NAME_UNITS
        invariant
            k <= NAME_UNITS,
            units@.len() == name@.len(),
            name_encodable(name@),
            forall|i: int| 0 <= i < name@.len() ==> (#[trigger] units@[i]) as u32 == name@[i] as u32,
            buf@ == name_units_image(name@, k as nat),
        decreases NAME_UNITS - k,
    {
        let unit: u16 = if k < units.len() {
            units[k]
        } else {
            0
        };
        assert(unit == name_unit(name@, k as int));
        push_be16(&mut buf, unit);
        proof {
            let f = |j: int| be16(name_unit(name@, j));
            assert(Seq::new((k + 1) as nat, f).drop_last() =~= Seq::new(k as nat, f));
        }
        k = k + 1;
    }
    Ok(buf)
}

/// Decodes a 66-byte name field: the characters of the units before the
/// first zero. A field of another size, or a surrogate unit in the name,
/// is invalid.
pub fn decode_name(field: &[u8]) -> (r: Result<String, Error>)
    ensures
        r is Ok <==> field@.len() == NAME_FIELD_SIZE && name_decodable(field@),
        r matches Ok(s) ==> name_decodes_to(field@, s@),
        !(field@.len() == NAME_FIELD_SIZE && name_decodable(field@)) ==> r == Err::<String, Error>(
            Error::InvalidData,
        ),
{
    if field.len() != NAME_FIELD_SIZE {
        return Err(Error::InvalidData);
    }
    let ghost u = units_of(field@);
    let mut units: Vec<u16> = Vec::new();
    let mut k: usize = 0;
    let mut stop = false;
    while k < NAME_UNITS && !stop
        invariant
            k <= NAME_UNITS,
            field@.len() == NAME_FIELD_SIZE,
            u == units_of(field@),
            units@ == u.take(k as int),
            forall|j: int| 0 <= j < k ==> #[trigger] u[j] != 0,
            first_zero(u, 0) == first_zero(u, k as int),
            stop ==> k < NAME_UNITS && u[k as int] == 0,
        decreases NAME_UNITS - k + (if stop { 0int } else { 1int }),
    {
        let unit = get_be16(field, 2 * k);
        assert(unit == u[k as int]);
        if unit == 0 {
            stop = true;
        } else {
            units.push(unit);
            assert(units@ =~= u.take(k + 1));
            k = k + 1;
        }
    }
    assert(first_zero(u, k as int) == k);
    assert(name_length(field@) == k);
    assert forall|i: int| 0 <= i < k implies units@[i] == #[trigger] u[i] by {}
    match ucs2_decode(units.as_slice()) {
        Some(s) => Ok(s),
        None => Err(Error::InvalidData),
    }
}

/// The name field always has its fixed size.
pub proof fn lemma_name_field_len(s: Seq<char>)
    ensures
        name_field(s).len() == NAME_FIELD_SIZE,
{
    let parts = Seq::new(NAME_UNITS as nat, |k: int| be16(name_unit(s, k)));
    lemma_concat_all(parts, 2);
}

proof fn lemma_first_zero(u: Seq<u16>, k: int, m: int)
    requires
        0 <= k <= m <= u.len(),
        forall|j: int| k <= j < m ==> #[trigger] u[j] != 0,
        m < u.len() ==> u[m] == 0,
    ensures
        first_zero(u, k) == m,
    decreases m - k,
{
    if k < m {
        lemma_first_zero(u, k + 1, m);
    }
}

/// The field of a name that fits holds 33 code units: the name's characters
/// in order, then zeros, so the last unit is always a zero terminator.
pub proof fn lemma_name_field_units(s: Seq<char>)
    requires
        name_encodable(s),
    ensures
        name_field(s).len() == NAME_FIELD_SIZE,
        units_of(name_field(s)) == Seq::new(NAME_UNITS as nat, |k: int| name_unit(s, k)),
        units_of(name_field(s))[NAME_UNITS - 1] == 0,
{
    let f = name_field(s);
    let parts = Seq::new(NAME_UNITS as nat, |k: int| be16(name_unit(s, k)));
    lemma_concat_all(parts, 2);
    let u = units_of(f);
    assert forall|k: int| 0 <= k < NAME_UNITS implies #[trigger] u[k] == name_unit(s, k) by {
        assert(f.subrange(k * 2, k * 2 + 2) == parts[k]);
        lemma_be16_read(f, 2 * k, name_unit(s, k));
    }
    assert(u =~= Seq::new(NAME_UNITS as nat, |k: int| name_unit(s, k)));
}

/// A name that fits the field and holds no zero character decodes from its
/// field to itself.
pub proof fn lemma_name_round_trip(s: Seq<char>)
    requires
        name_encodable(s),
        forall|i: int| 0 <= i < s.len() ==> (#[trigger] s[i] as u32) != 0,
    ensures
        name_field(s).len() == NAME_FIELD_SIZE,
        name_decodable(name_field(s)),
        name_decodes_to(name_field(s), s),
{
    let f = name_field(s);
    lemma_name_field_units(s);
    let u = units_of(f);
    assert forall|k: int| 0 <= k < s.len() implies #[trigger] u[k] as u32 == s[k] as u32 by {
        assert(is_bmp(s[k]));
    }
    lemma_first_zero(u, 0, s.len() as int);
    assert forall|k: int| 0 <= k < name_length(f) implies !is_surrogate(#[trigger] u[k]) by {
        assert(is_bmp(s[k]));
    }
}

} // verus!
