//! The 8-byte record of one sound effect.
use vstd::prelude::*;

use crate::bytes::{be32, get_be32, lemma_be32_read, push_be32, push_zeros, read_be32, zeros};
use crate::Error;

verus! {

/// Size in bytes of one sound-effect record.
pub const SOUND_EFFECT_SIZE: usize = 8;

/// A sound-effect record. Its first four bytes are kept as one opaque
/// value; the last four are reserved.
#[derive(Debug, Clone, Copy, PartialEq, Eq, Structural)]
pub struct SoundEffect {
    pub unknown: u32,
}

/// The wire form of a sound effect: the value big-endian, then four zero bytes.
pub open spec fn sound_effect_image(e: SoundEffect) -> Seq<u8> {
    be32(e.unknown) + zeros(4)
}

/// The sound effect that an 8-byte record holds.
pub open spec fn sound_effect_of(r: Seq<u8>) -> SoundEffect {
    SoundEffect { unknown: read_be32(r, 0) }
}

/// Decoding the wire form of a sound effect gives it back.
pub proof fn lemma_sound_effect_round_trip(e: SoundEffect)
    ensures
        sound_effect_image(e).len() == SOUND_EFFECT_SIZE,
        sound_effect_of(sound_effect_image(e)) == e,
{
    let r = sound_effect_image(e);
    assert(r.subrange(0, 4) =~= be32(e.unknown));
    lemma_be32_read(r, 0, e.unknown);
}

impl SoundEffect {
    pub fn new(unknown: u32) -> (r: SoundEffect)
        ensures
            r.unknown == unknown,
    {
        SoundEffect { unknown }
    }

    /// Appends the wire form of this sound effect.
    pub fn write_to(&self, buf: &mut Vec<u8>)
        ensures
            final(buf)@ == old(buf)@ + sound_effect_image(*self),
    {
        push_be32(buf, self.unknown);
        push_zeros(buf, 4);
        assert(final(buf)@ =~= old(buf)@ + sound_effect_image(*self));
    }

    /// The 8-byte wire form of this sound effect.
    pub fn to_bytes(&self) -> (r: Vec<u8>)
        ensures
            r@ == sound_effect_image(*self),
    {
        let mut buf: Vec<u8> = Vec::new();
        self.write_to(&mut buf);
        assert(buf@ =~= sound_effect_image(*self));
        buf
    }

    /// Decodes the record that starts at `off`.
    pub fn read_at(b: &[u8], off: usize) -> (r: SoundEffect)
        requires
            off + SOUND_EFFECT_SIZE <= b@.len(),
        ensures
            r == sound_effect_of(b@.subrange(off as int, off + SOUND_EFFECT_SIZE)),
    {
        SoundEffect { unknown: get_be32(b, off) }
    }

    /// Decodes a record of exactly 8 bytes; any other length is invalid.
    pub fn from_bytes(bytes: &[u8]) -> (r: Result<SoundEffect, Error>)
        ensures
            bytes@.len() == SOUND_EFFECT_SIZE ==> r == Ok::<SoundEffect, Error>(
                sound_effect_of(bytes@),
            ),
            bytes@.len() != SOUND_EFFECT_SIZE ==> r == Err::<SoundEffect, Error>(Error::InvalidData),
    {
        if bytes.len() != SOUND_EFFECT_SIZE {
            return Err(Error::InvalidData);
        }
        let e = SoundEffect::read_at(bytes, 0);
        assert(bytes@.subrange(0, 8) =~= bytes@);
        Ok(e)
    }
}

} // verus!
