//! The 32-byte record of one placed object.
use vstd::prelude::*;

use crate::bytes::{
    be16, be32, get_be16, get_be32, lemma_be16_read, lemma_be32_read, push_be16, push_be32,
    read_be16, read_be32,
};
use crate::Error;

verus! {

/// Size in bytes of one object record.
pub const OBJECT_SIZE: usize = 32;

/// A placed game entity. Positions are stored at ten times the block
/// coordinate; every field is carried as opaque data.
#[derive(Debug, Clone, Copy, PartialEq, Eq, Structural)]
pub struct Object {
    pub x_position: u32,
    pub z_position: u32,
    pub y_position: i16,
    pub width: i8,
    pub height: i8,
    pub object_flags: u32,
    pub child_object_flags: u32,
    pub extended_object_data: u32,
    pub object_type: i8,
    pub child_object_type: i8,
    pub link_id: i16,
    pub effect_index: i16,
    pub transformation_id: i8,
    pub child_object_transformation_id: i8,
}

/// The wire form of an object: its fields in order, big-endian.
pub open spec fn object_image(o: Object) -> Seq<u8> {
    be32(o.x_position) + be32(o.z_position) + be16(o.y_position as u16) + seq![
        o.width as u8,
        o.height as u8,
    ] + be32(o.object_flags) + be32(o.child_object_flags) + be32(o.extended_object_data) + seq![
        o.object_type as u8,
        o.child_object_type as u8,
    ] + be16(o.link_id as u16) + be16(o.effect_index as u16) + seq![
        o.transformation_id as u8,
        o.child_object_transformation_id as u8,
    ]
}

/// The object that a 32-byte record holds.
pub open spec fn object_of(r: Seq<u8>) -> Object {
    Object {
        x_position: read_be32(r, 0x00),
        z_position: read_be32(r, 0x04),
        y_position: read_be16(r, 0x08) as i16,
        width: r[0x0A] as i8,
        height: r[0x0B] as i8,
        object_flags: read_be32(r, 0x0C),
        child_object_flags: read_be32(r, 0x10),
        extended_object_data: read_be32(r, 0x14),
        object_type: r[0x18] as i8,
        child_object_type: r[0x19] as i8,
        link_id: read_be16(r, 0x1A) as i16,
        effect_index: read_be16(r, 0x1C) as i16,
        transformation_id: r[0x1E] as i8,
        child_object_transformation_id: r[0x1F] as i8,
    }
}

proof fn lemma_i16_cast(v: i16)
    ensures
        (v as u16) as i16 == v,
{
    assert((v as u16) as i16 == v) by (bit_vector);
}

proof fn lemma_i8_cast(v: i8)
    ensures
        (v as u8) as i8 == v,
{
    assert((v as u8) as i8 == v) by (bit_vector);
}

/// Decoding the wire form of an object gives the object back.
pub proof fn lemma_object_round_trip(o: Object)
    ensures
        object_image(o).len() == OBJECT_SIZE,
        object_of(object_image(o)) == o,
{
    let r = object_image(o);
    assert(r.len() == 32);
    assert(r.subrange(0x00, 0x04) =~= be32(o.x_position));
    assert(r.subrange(0x04, 0x08) =~= be32(o.z_position));
    assert(r.subrange(0x08, 0x0A) =~= be16(o.y_position as u16));
    assert(r.subrange(0x0C, 0x10) =~= be32(o.object_flags));
    assert(r.subrange(0x10, 0x14) =~= be32(o.child_object_flags));
    assert(r.subrange(0x14, 0x18) =~= be32(o.extended_object_data));
    assert(r.subrange(0x1A, 0x1C) =~= be16(o.link_id as u16));
    assert(r.subrange(0x1C, 0x1E) =~= be16(o.effect_index as u16));
    lemma_be32_read(r, 0x00, o.x_position);
    lemma_be32_read(r, 0x04, o.z_position);
    lemma_be16_read(r, 0x08, o.y_position as u16);
    lemma_be32_read(r, 0x0C, o.object_flags);
    lemma_be32_read(r, 0x10, o.child_object_flags);
    lemma_be32_read(r, 0x14, o.extended_object_data);
    lemma_be16_read(r, 0x1A, o.link_id as u16);
    lemma_be16_read(r, 0x1C, o.effect_index as u16);
    lemma_i16_cast(o.y_position);
    lemma_i16_cast(o.link_id);
    lemma_i16_cast(o.effect_index);
    lemma_i8_cast(o.width);
    lemma_i8_cast(o.height);
    lemma_i8_cast(o.object_type);
    lemma_i8_cast(o.child_object_type);
    lemma_i8_cast(o.transformation_id);
    lemma_i8_cast(o.child_object_transformation_id);
}

impl Object {
    pub fn new(
        x_position: u32,
        z_position: u32,
        y_position: i16,
        width: i8,
        height: i8,
        object_flags: u32,
        child_object_flags: u32,
        extended_object_data: u32,
        object_type: i8,
        child_object_type: i8,
        link_id: i16,
        effect_index: i16,
        transformation_id: i8,
        child_object_transformation_id: i8,
    ) -> (r: Object)
        ensures
            r == (Object {
                x_position,
                z_position,
                y_position,
                width,
                height,
                object_flags,
                child_object_flags,
                extended_object_data,
                object_type,
                child_object_type,
                link_id,
                effect_index,
                transformation_id,
                child_object_transformation_id,
            }),
    {
        Object {
            x_position,
            z_position,
            y_position,
            width,
            height,
            object_flags,
            child_object_flags,
            extended_object_data,
            object_type,
            child_object_type,
            link_id,
            effect_index,
            transformation_id,
            child_object_transformation_id,
        }
    }

    /// Block column: the stored x position divided by ten.
    pub fn get_x_block(&self) -> (r: u32)
        ensures
            r == self.x_position / 10,
    {
        self.x_position / 10
    }

    /// Block depth: the stored z position divided by ten.
    pub fn get_z_block(&self) -> (r: u32)
        ensures
            r == self.z_position / 10,
    {
        self.z_position / 10
    }

    /// Block row: the stored y position divided by ten, rounded toward zero.
    pub fn get_y_block(&self) -> (r: i16)
        ensures
            self.y_position >= 0 ==> r == self.y_position / 10,
            self.y_position < 0 ==> r == -((-self.y_position) / 10),
    {
        if self.y_position >= 0 {
            self.y_position / 10
        } else {
            -((-(self.y_position as i32)) / 10) as i16
        }
    }

    /// Appends the wire form of this object.
    pub fn write_to(&self, buf: &mut Vec<u8>)
        ensures
            final(buf)@ == old(buf)@ + object_image(*self),
    {
        push_be32(buf, self.x_position);
        push_be32(buf, self.z_position);
        push_be16(buf, self.y_position as u16);
        buf.push(self.width as u8);
        buf.push(self.height as u8);
        push_be32(buf, self.object_flags);
        push_be32(buf, self.child_object_flags);
        push_be32(buf, self.extended_object_data);
        buf.push(self.object_type as u8);
        buf.push(self.child_object_type as u8);
        push_be16(buf, self.link_id as u16);
        push_be16(buf, self.effect_index as u16);
        buf.push(self.transformation_id as u8);
        buf.push(self.child_object_transformation_id as u8);
        assert(final(buf)@ =~= old(buf)@ + object_image(*self));
    }

    /// The 32-byte wire form of this object.
    pub fn to_bytes(&self) -> (r: Vec<u8>)
        ensures
            r@ == object_image(*self),
    {
        let mut buf: Vec<u8> = Vec::new();
        self.write_to(&mut buf);
        assert(buf@ =~= object_image(*self));
        buf
    }

    /// Decodes the record that starts at `off`.
    pub fn read_at(b: &[u8], off: usize) -> (r: Object)
        requires
            off + OBJECT_SIZE <= b@.len(),
        ensures
            r == object_of(b@.subrange(off as int, off + OBJECT_SIZE)),
    {
        let ghost rec = b@.subrange(off as int, off + OBJECT_SIZE);
        let _len = b.len();
        let r = Object {
            x_position: get_be32(b, off),
            z_position: get_be32(b, off + 4),
            y_position: get_be16(b, off + 8) as i16,
            width: b[off + 0x0A] as i8,
            height: b[off + 0x0B] as i8,
            object_flags: get_be32(b, off + 0x0C),
            child_object_flags: get_be32(b, off + 0x10),
            extended_object_data: get_be32(b, off + 0x14),
            object_type: b[off + 0x18] as i8,
            child_object_type: b[off + 0x19] as i8,
            link_id: get_be16(b, off + 0x1A) as i16,
            effect_index: get_be16(b, off + 0x1C) as i16,
            transformation_id: b[off + 0x1E] as i8,
            child_object_transformation_id: b[off + 0x1F] as i8,
        };
        assert(r == object_of(rec));
        r
    }

    /// Decodes a record of exactly 32 bytes; any other length is invalid.
    pub fn from_bytes(bytes: &[u8]) -> (r: Result<Object, Error>)
        ensures
            bytes@.len() == OBJECT_SIZE ==> r == Ok::<Object, Error>(object_of(bytes@)),
            bytes@.len() != OBJECT_SIZE ==> r == Err::<Object, Error>(Error::InvalidData),
    {
        if bytes.len() != OBJECT_SIZE {
            return Err(Error::InvalidData);
        }
        let o = Object::read_at(bytes, 0);
        assert(bytes@.subrange(0, 32) =~= bytes@);
        Ok(o)
    }
}

} // verus!
