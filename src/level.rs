//! The level file: a fixed 0x15000-byte image of one stage.
use vstd::prelude::*;

use crate::bytes::{
    be16, be32, be64, concat_all, get_be16, get_be32, get_be64, push_be16, push_be32, push_be64,
    push_zeros, read_be16, read_be32, read_be64, zeros,
};
use crate::calendar::CreationTime;
use crate::checksum::{crc32_from, crc32_of};
use crate::objects::{object_image, object_of, Object, OBJECT_SIZE};
use crate::sound_effects::{sound_effect_image, sound_effect_of, SoundEffect, SOUND_EFFECT_SIZE};
use crate::text::{
    decode_name, encode_name, name_decodable, name_decodes_to, name_encodable, name_field,
    NAME_FIELD_SIZE,
};
use crate::Error;

verus! {

/// ASCII codes of the letters that game-mode tags use.
pub const LETTER_M: u8 = 0x4D;
pub const LETTER_W: u8 = 0x57;
pub const LETTER_U: u8 = 0x55;
pub const DIGIT_1: u8 = 0x31;
pub const DIGIT_3: u8 = 0x33;

/// The game style of a level, stored as a two-letter tag.
#[derive(Debug, Clone, Copy, PartialEq, Eq, Structural, Default)]
pub enum GameMode {
    #[default]
    SuperMarioBros,
    Mario3,
    MarioWorld,
    NewSuperMarioBrosU,
}

/// The two tag bytes of a game mode.
pub open spec fn game_mode_tag(m: GameMode) -> Seq<u8> {
    match m {
        GameMode::SuperMarioBros => seq![LETTER_M, DIGIT_1],
        GameMode::Mario3 => seq![LETTER_M, DIGIT_3],
        GameMode::MarioWorld => seq![LETTER_M, LETTER_W],
        GameMode::NewSuperMarioBrosU => seq![LETTER_W, LETTER_U],
    }
}

/// The game mode whose tag is `a`, `b`, if any.
pub open spec fn game_mode_of(a: u8, b: u8) -> Option<GameMode> {
    if a == LETTER_M && b == DIGIT_1 {
        Some(GameMode::SuperMarioBros)
    } else if a == LETTER_M && b == DIGIT_3 {
        Some(GameMode::Mario3)
    } else if a == LETTER_M && b == LETTER_W {
        Some(GameMode::MarioWorld)
    } else if a == LETTER_W && b == LETTER_U {
        Some(GameMode::NewSuperMarioBrosU)
    } else {
        None
    }
}

impl GameMode {
    /// The two-letter tag of this mode.
    pub fn pack(&self) -> (r: [u8; 2])
        ensures
            r@ == game_mode_tag(*self),
    {
        let r = match self {
            GameMode::SuperMarioBros => [LETTER_M, DIGIT_1],
            GameMode::Mario3 => [LETTER_M, DIGIT_3],
            GameMode::MarioWorld => [LETTER_M, LETTER_W],
            GameMode::NewSuperMarioBrosU => [LETTER_W, LETTER_U],
        };
        assert(r@ =~= game_mode_tag(*self));
        r
    }

    /// The mode that a tag names; any other pair of bytes is invalid.
    pub fn unpack(src: &[u8; 2]) -> (r: Result<GameMode, Error>)
        ensures
            game_mode_of(src@[0], src@[1]) matches Some(m) ==> r == Ok::<GameMode, Error>(m),
            game_mode_of(src@[0], src@[1]) is None ==> r == Err::<GameMode, Error>(
                Error::InvalidData,
            ),
    {
        let a = src[0];
        let b = src[1];
        if a == LETTER_M && b == DIGIT_1 {
            Ok(GameMode::SuperMarioBros)
        } else if a == LETTER_M && b == DIGIT_3 {
            Ok(GameMode::Mario3)
        } else if a == LETTER_M && b == LETTER_W {
            Ok(GameMode::MarioWorld)
        } else if a == LETTER_W && b == LETTER_U {
            Ok(GameMode::NewSuperMarioBrosU)
        } else {
            Err(Error::InvalidData)
        }
    }
}

/// The visual theme of a level, stored as an ordinal from 0 to 5.
#[derive(Debug, Clone, Copy, PartialEq, Eq, Structural, Default)]
pub enum CourseTheme {
    #[default]
    Overworld,
    Underground,
    Castle,
    Airship,
    Water,
    GhostHouse,
}

/// The ordinal of a theme.
pub open spec fn course_theme_value(t: CourseTheme) -> u8 {
    match t {
        CourseTheme::Overworld => 0,
        CourseTheme::Underground => 1,
        CourseTheme::Castle => 2,
        CourseTheme::Airship => 3,
        CourseTheme::Water => 4,
        CourseTheme::GhostHouse => 5,
    }
}

/// The theme with ordinal `v`, if any.
pub open spec fn course_theme_of(v: u8) -> Option<CourseTheme> {
    if v == 0 {
        Some(CourseTheme::Overworld)
    } else if v == 1 {
        Some(CourseTheme::Underground)
    } else if v == 2 {
        Some(CourseTheme::Castle)
    } else if v == 3 {
        Some(CourseTheme::Airship)
    } else if v == 4 {
        Some(CourseTheme::Water)
    } else if v == 5 {
        Some(CourseTheme::GhostHouse)
    } else {
        None
    }
}

impl CourseTheme {
    pub fn to_u8(&self) -> (r: u8)
        ensures
            r == course_theme_value(*self),
    {
        match self {
            CourseTheme::Overworld => 0,
            CourseTheme::Underground => 1,
            CourseTheme::Castle => 2,
            CourseTheme::Airship => 3,
            CourseTheme::Water => 4,
            CourseTheme::GhostHouse => 5,
        }
    }

    pub fn from_u8(v: u8) -> (r: Option<CourseTheme>)
        ensures
            r == course_theme_of(v),
    {
        if v == 0 {
            Some(CourseTheme::Overworld)
        } else if v == 1 {
            Some(CourseTheme::Underground)
        } else if v == 2 {
            Some(CourseTheme::Castle)
        } else if v == 3 {
            Some(CourseTheme::Airship)
        } else if v == 4 {
            Some(CourseTheme::Water)
        } else if v == 5 {
            Some(CourseTheme::GhostHouse)
        } else {
            None
        }
    }
}

/// The scrolling speed of a level, stored as an ordinal from 0 to 3.
#[derive(Debug, Clone, Copy, PartialEq, Eq, Structural, Default)]
pub enum AutoScroll {
    #[default]
    Off,
    Slow,
    Medium,
    Fast,
}

/// The ordinal of a scrolling speed.
pub open spec fn auto_scroll_value(a: AutoScroll) -> u8 {
    match a {
        AutoScroll::Off => 0,
        AutoScroll::Slow => 1,
        AutoScroll::Medium => 2,
        AutoScroll::Fast => 3,
    }
}

/// The scrolling speed with ordinal `v`, if any.
pub open spec fn auto_scroll_of(v: u8) -> Option<AutoScroll> {
    if v == 0 {
        Some(AutoScroll::Off)
    } else if v == 1 {
        Some(AutoScroll::Slow)
    } else if v == 2 {
        Some(AutoScroll::Medium)
    } else if v == 3 {
        Some(AutoScroll::Fast)
    } else {
        None
    }
}

impl AutoScroll {
    pub fn to_u8(&self) -> (r: u8)
        ensures
            r == auto_scroll_value(*self),
    {
        match self {
            AutoScroll::Off => 0,
            AutoScroll::Slow => 1,
            AutoScroll::Medium => 2,
            AutoScroll::Fast => 3,
        }
    }

    pub fn from_u8(v: u8) -> (r: Option<AutoScroll>)
        ensures
            r == auto_scroll_of(v),
    {
        if v == 0 {
            Some(AutoScroll::Off)
        } else if v == 1 {
            Some(AutoScroll::Slow)
        } else if v == 2 {
            Some(AutoScroll::Medium)
        } else if v == 3 {
            Some(AutoScroll::Fast)
        } else {
            None
        }
    }
}

/// Every tag decodes to the mode it came from; only the four tags decode.
pub proof fn lemma_game_mode_tags(m: GameMode, a: u8, b: u8)
    ensures
        game_mode_of(game_mode_tag(m)[0], game_mode_tag(m)[1]) == Some(m),
        game_mode_of(a, b) matches Some(n) ==> game_mode_tag(n) == seq![a, b],
{
    if game_mode_of(a, b) is Some {
        assert(game_mode_tag(game_mode_of(a, b)->0) =~= seq![a, b]);
    }
}

/// Size in bytes of a level file.
pub const LEVEL_SIZE: usize = 0x15000;

/// Offset of the checksum, which covers everything from `CHECKSUM_START` on.
pub const CHECKSUM_OFFSET: usize = 0x08;
pub const CHECKSUM_START: usize = 0x10;

/// Offsets of the fields of a level file.
pub const CREATION_TIME_OFFSET: usize = 0x10;
pub const NAME_OFFSET: usize = 0x28;
pub const GAME_MODE_OFFSET: usize = 0x6A;
pub const COURSE_THEME_OFFSET: usize = 0x6D;
pub const TIME_LIMIT_OFFSET: usize = 0x70;
pub const AUTO_SCROLL_OFFSET: usize = 0x72;
pub const FLAGS_OFFSET: usize = 0x73;
pub const WIDTH_OFFSET: usize = 0x74;
pub const MII_OFFSET: usize = 0x78;
pub const OBJECT_COUNT_OFFSET: usize = 0xEC;
pub const OBJECTS_OFFSET: usize = 0xF0;
pub const SOUND_EFFECTS_OFFSET: usize = 0x145F0;

/// Size in bytes of the opaque Mii blob.
pub const MII_SIZE: usize = 0x60;

/// Room in the object table, in records.
pub const MAX_OBJECTS: usize = 2600;

/// Number of records in the sound-effect table.
pub const SOUND_EFFECT_COUNT: usize = 300;

/// Width of a level in blocks is a fixed convention of the format.
pub const BLOCK_HEIGHT: u32 = 27;

/// One playable stage.
#[derive(Debug, Clone, PartialEq, Eq)]
pub struct Level {
    pub version: u64,
    pub creation_time: CreationTime,
    pub level_name: String,
    pub game_mode: GameMode,
    pub course_theme: CourseTheme,
    pub time_limit: u16,
    pub auto_scroll: AutoScroll,
    pub flags: u8,
    pub width: u32,
    pub mii_data: [u8; 96],
    pub objects: Vec<Object>,
    pub sound_effects: Vec<SoundEffect>,
}

/// A level can be written: a real timestamp, a name that fits its field, an
/// object table within its room and a full sound-effect table.
pub open spec fn level_encodable(l: Level) -> bool {
    &&& l.creation_time.wf()
    &&& name_encodable(l.level_name@)
    &&& l.objects@.len() <= MAX_OBJECTS
    &&& l.sound_effects@.len() == SOUND_EFFECT_COUNT
}

/// The first 0xF0 bytes of the file, with the checksum left zero.
pub open spec fn level_header(l: Level) -> Seq<u8> {
    be64(l.version) + zeros(8) + l.creation_time.image() + zeros(0x12) + name_field(l.level_name@)
        + game_mode_tag(l.game_mode) + seq![0u8, course_theme_value(l.course_theme)] + zeros(2)
        + be16(l.time_limit) + seq![auto_scroll_value(l.auto_scroll), l.flags] + be32(l.width)
        + l.mii_data@ + zeros(0x14) + be32(l.objects@.len() as u32)
}

/// The object records laid end to end.
pub open spec fn objects_image(objects: Seq<Object>) -> Seq<u8> {
    concat_all(objects.map_values(|o: Object| object_image(o)))
}

/// The sound-effect records laid end to end.
pub open spec fn sound_effects_image(effects: Seq<SoundEffect>) -> Seq<u8> {
    concat_all(effects.map_values(|e: SoundEffect| sound_effect_image(e)))
}

/// The whole file with the checksum left zero: header, object table padded
/// to its room, sound-effect table, trailing padding.
pub open spec fn level_body(l: Level) -> Seq<u8> {
    level_header(l) + objects_image(l.objects@) + zeros(
        (OBJECT_SIZE * (MAX_OBJECTS - l.objects@.len())) as nat,
    ) + sound_effects_image(l.sound_effects@) + zeros(0xB0)
}

/// The wire form of a level: its body with the CRC-32 of the bytes from
/// `CHECKSUM_START` on stored at `CHECKSUM_OFFSET`.
pub open spec fn level_image(l: Level) -> Seq<u8> {
    let body = level_body(l);
    body.subrange(0, CHECKSUM_OFFSET as int) + be32(
        crc32_of(body.subrange(CHECKSUM_START as int, LEVEL_SIZE as int)),
    ) + body.subrange(CHECKSUM_OFFSET + 4, LEVEL_SIZE as int)
}

/// The timestamp stored at `CREATION_TIME_OFFSET`.
pub open spec fn creation_time_of(b: Seq<u8>) -> CreationTime {
    CreationTime {
        year: read_be16(b, 0x10),
        month: b[0x12],
        day: b[0x13],
        hour: b[0x14],
        minute: b[0x15],
    }
}

/// The object-count field.
pub open spec fn object_count_of(b: Seq<u8>) -> u32 {
    read_be32(b, OBJECT_COUNT_OFFSET as int)
}

/// Object record `i` of the table.
pub open spec fn object_record(b: Seq<u8>, i: int) -> Seq<u8> {
    b.subrange(OBJECTS_OFFSET + OBJECT_SIZE * i, OBJECTS_OFFSET + OBJECT_SIZE * i + OBJECT_SIZE)
}

/// Sound-effect record `i` of the table.
pub open spec fn sound_effect_record(b: Seq<u8>, i: int) -> Seq<u8> {
    b.subrange(
        SOUND_EFFECTS_OFFSET + SOUND_EFFECT_SIZE * i,
        SOUND_EFFECTS_OFFSET + SOUND_EFFECT_SIZE * i + SOUND_EFFECT_SIZE,
    )
}

/// A buffer decodes as a level: it has the exact size, a real timestamp, a
/// readable name, known tags and ordinals, and an object count within the
/// table's room. The checksum and the reserved bytes are not looked at.
pub open spec fn level_decodable(b: Seq<u8>) -> bool {
    &&& b.len() == LEVEL_SIZE
    &&& creation_time_of(b).wf()
    &&& name_decodable(b.subrange(NAME_OFFSET as int, NAME_OFFSET + NAME_FIELD_SIZE))
    &&& game_mode_of(b[GAME_MODE_OFFSET as int], b[GAME_MODE_OFFSET + 1]) is Some
    &&& course_theme_of(b[COURSE_THEME_OFFSET as int]) is Some
    &&& auto_scroll_of(b[AUTO_SCROLL_OFFSET as int]) is Some
    &&& object_count_of(b) <= MAX_OBJECTS
}

/// `l` is the level that the decodable buffer `b` holds, field by field.
pub open spec fn level_decodes_to(b: Seq<u8>, l: Level) -> bool {
    &&& l.version == read_be64(b, 0)
    &&& l.creation_time == creation_time_of(b)
    &&& name_decodes_to(b.subrange(NAME_OFFSET as int, NAME_OFFSET + NAME_FIELD_SIZE), l.level_name@)
    &&& game_mode_of(b[GAME_MODE_OFFSET as int], b[GAME_MODE_OFFSET + 1]) == Some(l.game_mode)
    &&& course_theme_of(b[COURSE_THEME_OFFSET as int]) == Some(l.course_theme)
    &&& l.time_limit == read_be16(b, TIME_LIMIT_OFFSET as int)
    &&& auto_scroll_of(b[AUTO_SCROLL_OFFSET as int]) == Some(l.auto_scroll)
    &&& l.flags == b[FLAGS_OFFSET as int]
    &&& l.width == read_be32(b, WIDTH_OFFSET as int)
    &&& l.mii_data@ == b.subrange(MII_OFFSET as int, MII_OFFSET + MII_SIZE)
    &&& l.objects@ == Seq::new(
        object_count_of(b) as nat,
        |i: int| object_of(object_record(b, i)),
    )
    &&& l.sound_effects@ == Seq::new(
        SOUND_EFFECT_COUNT as nat,
        |i: int| sound_effect_of(sound_effect_record(b, i)),
    )
}

impl Level {
    pub fn new(
        version: u64,
        creation_time: CreationTime,
        level_name: String,
        game_mode: GameMode,
        course_theme: CourseTheme,
        time_limit: u16,
        auto_scroll: AutoScroll,
        flags: u8,
        width: u32,
        mii_data: [u8; 96],
        objects: Vec<Object>,
        sound_effects: Vec<SoundEffect>,
    ) -> (r: Level)
        ensures
            r.version == version,
            r.creation_time == creation_time,
            r.level_name@ == level_name@,
            r.game_mode == game_mode,
            r.course_theme == course_theme,
            r.time_limit == time_limit,
            r.auto_scroll == auto_scroll,
            r.flags == flags,
            r.width == width,
            r.mii_data@ == mii_data@,
            r.objects@ == objects@,
            r.sound_effects@ == sound_effects@,
    {
        Level {
            version,
            creation_time,
            level_name,
            game_mode,
            course_theme,
            time_limit,
            auto_scroll,
            flags,
            width,
            mii_data,
            objects,
            sound_effects,
        }
    }

    /// Width in blocks: the stored width divided by 16.
    pub fn block_width(&self) -> (r: u32)
        ensures
            r == self.width / 16,
    {
        self.width / 16
    }

    /// Height in blocks, the same for every level.
    pub fn block_height(&self) -> (r: u32)
        ensures
            r == BLOCK_HEIGHT,
    {
        BLOCK_HEIGHT
    }

    /// Decodes a level file. A buffer of another size, or one with a field
    /// that does not decode, is invalid.
    pub fn from_bytes(bytes: &[u8]) -> (r: Result<Level, Error>)
        ensures
            r is Ok <==> level_decodable(bytes@),
            r matches Ok(l) ==> level_decodes_to(bytes@, l),
            !level_decodable(bytes@) ==> r == Err::<Level, Error>(Error::InvalidData),
    {
        let ghost b = bytes@;
        if bytes.len() != LEVEL_SIZE {
            return Err(Error::InvalidData);
        }
        let version = get_be64(bytes, 0);
        let creation_time = CreationTime {
            year: get_be16(bytes, CREATION_TIME_OFFSET),
            month: bytes[0x12],
            day: bytes[0x13],
            hour: bytes[0x14],
            minute: bytes[0x15],
        };
        if !creation_time.is_valid() {
            return Err(Error::InvalidData);
        }
        let level_name = match decode_name(
            vstd::slice::slice_subrange(bytes, NAME_OFFSET, NAME_OFFSET + NAME_FIELD_SIZE),
        ) {
            Ok(name) => name,
            Err(e) => {
                return Err(e);
            },
        };
        let game_mode = match GameMode::unpack(
            &[bytes[GAME_MODE_OFFSET], bytes[GAME_MODE_OFFSET + 1]],
        ) {
            Ok(m) => m,
            Err(e) => {
                return Err(e);
            },
        };
        let course_theme = match CourseTheme::from_u8(bytes[COURSE_THEME_OFFSET]) {
            Some(t) => t,
            None => {
                return Err(Error::InvalidData);
            },
        };
        let time_limit = get_be16(bytes, TIME_LIMIT_OFFSET);
        let auto_scroll = match AutoScroll::from_u8(bytes[AUTO_SCROLL_OFFSET]) {
            Some(a) => a,
            None => {
                return Err(Error::InvalidData);
            },
        };
        let flags = bytes[FLAGS_OFFSET];
        let width = get_be32(bytes, WIDTH_OFFSET);
        let mut mii_data = [0u8; 96];
        let mut i: usize = 0;
        while i < MII_SIZE
            invariant
                i <= MII_SIZE,
                b == bytes@,
                b.len() == LEVEL_SIZE,
                forall|k: int| 0 <= k < i ==> mii_data@[k] == b[MII_OFFSET + k],
            decreases MII_SIZE - i,
        {
            mii_data[i] = bytes[MII_OFFSET + i];
            i = i + 1;
        }
        assert(mii_data@ =~= b.subrange(MII_OFFSET as int, MII_OFFSET + MII_SIZE));
        let object_count = get_be32(bytes, OBJECT_COUNT_OFFSET);
        if object_count as usize > MAX_OBJECTS {
            return Err(Error::InvalidData);
        }
        let n = object_count as usize;
        let mut objects: Vec<Object> = Vec::new();
        let mut k: usize = 0;
        while k < n
            invariant
                k <= n,
                n <= MAX_OBJECTS,
                b == bytes@,
                b.len() == LEVEL_SIZE,
                objects@ == Seq::new(k as nat, |i: int| object_of(object_record(b, i))),
            decreases n - k,
        {
            objects.push(Object::read_at(bytes, OBJECTS_OFFSET + OBJECT_SIZE * k));
            assert(objects@ =~= Seq::new((k + 1) as nat, |i: int| object_of(object_record(b, i))));
            k = k + 1;
        }
        let mut sound_effects: Vec<SoundEffect> = Vec::new();
        let mut j: usize = 0;
        while j < SOUND_EFFECT_COUNT
            invariant
                j <= SOUND_EFFECT_COUNT,
                b == bytes@,
                b.len() == LEVEL_SIZE,
                sound_effects@ == Seq::new(
                    j as nat,
                    |i: int| sound_effect_of(sound_effect_record(b, i)),
                ),
            decreases SOUND_EFFECT_COUNT - j,
        {
            sound_effects.push(
                SoundEffect::read_at(bytes, SOUND_EFFECTS_OFFSET + SOUND_EFFECT_SIZE * j),
            );
            assert(sound_effects@ =~= Seq::new(
                (j + 1) as nat,
                |i: int| sound_effect_of(sound_effect_record(b, i)),
            ));
            j = j + 1;
        }
        Ok(Level {
            version,
            creation_time,
            level_name,
            game_mode,
            course_theme,
            time_limit,
            auto_scroll,
            flags,
            width,
            mii_data,
            objects,
            sound_effects,
        })
    }

    /// Whether the checksum stored at `CHECKSUM_OFFSET` of a level-sized
    /// buffer is the CRC-32 of its bytes from `CHECKSUM_START` on.
    pub fn checksum_matches(bytes: &[u8]) -> (r: bool)
        ensures
            r == (bytes@.len() == LEVEL_SIZE && read_be32(bytes@, CHECKSUM_OFFSET as int)
                == crc32_of(bytes@.subrange(CHECKSUM_START as int, LEVEL_SIZE as int))),
    {
        if bytes.len() != LEVEL_SIZE {
            return false;
        }
        get_be32(bytes, CHECKSUM_OFFSET) == crc32_from(bytes, CHECKSUM_START)
    }

    fn write_header(&self, buf: &mut Vec<u8>, name: &mut Vec<u8>)
        requires
            old(buf)@.len() == 0,
            old(name)@ == name_field(self.level_name@),
            self.objects@.len() <= MAX_OBJECTS,
        ensures
            final(buf)@ == level_header(*self),
    {
        push_be64(buf, self.version);
        push_zeros(buf, 8);
        self.creation_time.write_to(buf);
        push_zeros(buf, 0x12);
        buf.append(name);
        let tag = self.game_mode.pack();
        buf.push(tag[0]);
        buf.push(tag[1]);
        buf.push(0u8);
        buf.push(self.course_theme.to_u8());
        push_zeros(buf, 2);
        push_be16(buf, self.time_limit);
        buf.push(self.auto_scroll.to_u8());
        buf.push(self.flags);
        push_be32(buf, self.width);
        let ghost before_mii = buf@;
        let mut i: usize = 0;
        while i < MII_SIZE
            invariant
                i <= MII_SIZE,
                buf@ == before_mii + self.mii_data@.take(i as int),
            decreases MII_SIZE - i,
        {
            buf.push(self.mii_data[i]);
            assert(buf@ =~= before_mii + self.mii_data@.take(i + 1));
            i = i + 1;
        }
        assert(self.mii_data@.take(96) =~= self.mii_data@);
        push_zeros(buf, 0x14);
        push_be32(buf, self.objects.len() as u32);
        assert(tag@ =~= seq![tag[0], tag[1]]);
        assert(final(buf)@ =~= level_header(*self));
    }

    /// The fixed-size wire form, checksum last. A name that does not fit is
    /// refused first, then a timestamp that names no real time, an object
    /// table beyond its room, and a sound-effect table that is not full.
    pub fn to_bytes(&self) -> (r: Result<Vec<u8>, Error>)
        ensures
            r is Ok <==> level_encodable(*self),
            r matches Ok(b) ==> b@ == level_image(*self),
            !name_encodable(self.level_name@) ==> r == Err::<Vec<u8>, Error>(Error::InvalidName),
            name_encodable(self.level_name@) && !self.creation_time.wf() ==> r == Err::<
                Vec<u8>,
                Error,
            >(Error::InvalidData),
            name_encodable(self.level_name@) && self.creation_time.wf() && self.objects@.len()
                > MAX_OBJECTS ==> r == Err::<Vec<u8>, Error>(Error::TooManyObjects),
            name_encodable(self.level_name@) && self.creation_time.wf() && self.objects@.len()
                <= MAX_OBJECTS && self.sound_effects@.len() != SOUND_EFFECT_COUNT ==> r == Err::<
                Vec<u8>,
                Error,
            >(Error::InvalidData),
    {
        let mut name = match encode_name(self.level_name.as_str()) {
            Ok(name) => name,
            Err(e) => {
                return Err(e);
            },
        };
        if !self.creation_time.is_valid() {
            return Err(Error::InvalidData);
        }
        if self.objects.len() > MAX_OBJECTS {
            return Err(Error::TooManyObjects);
        }
        if self.sound_effects.len() != SOUND_EFFECT_COUNT {
            return Err(Error::InvalidData);
        }
        let mut buf: Vec<u8> = Vec::new();
        self.write_header(&mut buf, &mut name);
        let ghost header = buf@;
        let n = self.objects.len();
        let mut i: usize = 0;
        while i < n
            invariant
                i <= n,
                n == self.objects@.len(),
                buf@ == header + objects_image(self.objects@.take(i as int)),
            decreases n - i,
        {
            self.objects[i].write_to(&mut buf);
            proof {
                let s = self.objects@.take(i + 1);
                assert(s.drop_last() =~= self.objects@.take(i as int));
                assert(s.map_values(|o: Object| object_image(o)).drop_last() =~= s.drop_last().map_values(
                    |o: Object| object_image(o),
                ));
            }
            i = i + 1;
        }
        assert(self.objects@.take(n as int) =~= self.objects@);
        push_zeros(&mut buf, OBJECT_SIZE * (MAX_OBJECTS - n));
        let ghost with_objects = buf@;
        let mut j: usize = 0;
        while j < SOUND_EFFECT_COUNT
            invariant
                j <= SOUND_EFFECT_COUNT,
                self.sound_effects@.len() == SOUND_EFFECT_COUNT,
                buf@ == with_objects + sound_effects_image(self.sound_effects@.take(j as int)),
            decreases SOUND_EFFECT_COUNT - j,
        {
            self.sound_effects[j].write_to(&mut buf);
            proof {
                let s = self.sound_effects@.take(j + 1);
                assert(s.drop_last() =~= self.sound_effects@.take(j as int));
                assert(s.map_values(|e: SoundEffect| sound_effect_image(e)).drop_last()
                    =~= s.drop_last().map_values(|e: SoundEffect| sound_effect_image(e)));
            }
            j = j + 1;
        }
        assert(self.sound_effects@.take(300) =~= self.sound_effects@);
        push_zeros(&mut buf, 0xB0);
        assert(buf@ =~= level_body(*self));
        proof {
            lemma_level_body_len(*self);
        }
        let checksum = crc32_from(buf.as_slice(), CHECKSUM_START);
        buf[8] = (checksum >> 24u32) as u8;
        buf[9] = (checksum >> 16u32) as u8;
        buf[10] = (checksum >> 8u32) as u8;
        buf[11] = checksum as u8;
        assert(buf@ =~= level_image(*self));
        Ok(buf)
    }
}

/// Lengths of the parts of the file.
pub proof fn lemma_level_body_len(l: Level)
    requires
        level_encodable(l),
    ensures
        level_header(l).len() == OBJECTS_OFFSET,
        objects_image(l.objects@).len() == OBJECT_SIZE * l.objects@.len(),
        sound_effects_image(l.sound_effects@).len() == SOUND_EFFECT_SIZE * SOUND_EFFECT_COUNT,
        level_body(l).len() == LEVEL_SIZE,
{
    crate::text::lemma_name_field_len(l.level_name@);
    let os = l.objects@.map_values(|o: Object| object_image(o));
    assert forall|i: int| 0 <= i < os.len() implies #[trigger] os[i].len() == OBJECT_SIZE by {
        crate::objects::lemma_object_round_trip(l.objects@[i]);
    }
    crate::bytes::lemma_concat_all(os, OBJECT_SIZE as nat);
    let es = l.sound_effects@.map_values(|e: SoundEffect| sound_effect_image(e));
    assert forall|i: int| 0 <= i < es.len() implies #[trigger] es[i].len() == SOUND_EFFECT_SIZE by {
        crate::sound_effects::lemma_sound_effect_round_trip(l.sound_effects@[i]);
    }
    crate::bytes::lemma_concat_all(es, SOUND_EFFECT_SIZE as nat);
}

/// Where each field of the header sits.
proof fn lemma_header_fields(l: Level)
    requires
        level_encodable(l),
    ensures
        level_header(l).len() == OBJECTS_OFFSET,
        level_header(l).subrange(0, 8) == be64(l.version),
        level_header(l).subrange(0x10, 0x12) == be16(l.creation_time.year),
        level_header(l)[0x12] == l.creation_time.month,
        level_header(l)[0x13] == l.creation_time.day,
        level_header(l)[0x14] == l.creation_time.hour,
        level_header(l)[0x15] == l.creation_time.minute,
        level_header(l).subrange(NAME_OFFSET as int, NAME_OFFSET + NAME_FIELD_SIZE) == name_field(
            l.level_name@,
        ),
        level_header(l)[GAME_MODE_OFFSET as int] == game_mode_tag(l.game_mode)[0],
        level_header(l)[GAME_MODE_OFFSET + 1] == game_mode_tag(l.game_mode)[1],
        level_header(l)[COURSE_THEME_OFFSET as int] == course_theme_value(l.course_theme),
        level_header(l).subrange(TIME_LIMIT_OFFSET as int, TIME_LIMIT_OFFSET + 2) == be16(
            l.time_limit,
        ),
        level_header(l)[AUTO_SCROLL_OFFSET as int] == auto_scroll_value(l.auto_scroll),
        level_header(l)[FLAGS_OFFSET as int] == l.flags,
        level_header(l).subrange(WIDTH_OFFSET as int, WIDTH_OFFSET + 4) == be32(l.width),
        level_header(l).subrange(MII_OFFSET as int, MII_OFFSET + MII_SIZE) == l.mii_data@,
        level_header(l).subrange(OBJECT_COUNT_OFFSET as int, OBJECT_COUNT_OFFSET + 4) == be32(
            l.objects@.len() as u32,
        ),
{
    crate::text::lemma_name_field_len(l.level_name@);
    let h = level_header(l);
    assert(h.subrange(0, 8) =~= be64(l.version));
    assert(h.subrange(0x10, 0x12) =~= be16(l.creation_time.year));
    assert(h.subrange(NAME_OFFSET as int, NAME_OFFSET + NAME_FIELD_SIZE) =~= name_field(
        l.level_name@,
    ));
    assert(h.subrange(TIME_LIMIT_OFFSET as int, TIME_LIMIT_OFFSET + 2) =~= be16(l.time_limit));
    assert(h.subrange(WIDTH_OFFSET as int, WIDTH_OFFSET + 4) =~= be32(l.width));
    assert(h.subrange(MII_OFFSET as int, MII_OFFSET + MII_SIZE) =~= l.mii_data@);
    assert(h.subrange(OBJECT_COUNT_OFFSET as int, OBJECT_COUNT_OFFSET + 4) =~= be32(
        l.objects@.len() as u32,
    ));
}

/// Every level that can be written decodes from its wire form to itself,
/// provided its name holds no zero character (which would end the name
/// early). Reserved bytes are not part of a level and play no part.
#[verifier::rlimit(50)]
pub proof fn lemma_level_round_trip(l: Level)
    requires
        level_encodable(l),
        forall|i: int| 0 <= i < l.level_name@.len() ==> (#[trigger] l.level_name@[i] as u32) != 0,
    ensures
        level_image(l).len() == LEVEL_SIZE,
        level_decodable(level_image(l)),
        level_decodes_to(level_image(l), l),
{
    lemma_level_body_len(l);
    lemma_header_fields(l);
    let h = level_header(l);
    let body = level_body(l);
    let b = level_image(l);
    let n = l.objects@.len();
    let oi = objects_image(l.objects@);
    let si = sound_effects_image(l.sound_effects@);
    assert(b.len() == LEVEL_SIZE);
    assert forall|i: int| 0 <= i < OBJECTS_OFFSET && !(8 <= i < 12) implies #[trigger] b[i] == h[i] by {
        assert(body[i] == h[i]);
    }
    assert forall|i: int| OBJECTS_OFFSET <= i < OBJECTS_OFFSET + OBJECT_SIZE * n implies #[trigger] b[i]
        == oi[i - OBJECTS_OFFSET] by {
        assert(body[i] == oi[i - OBJECTS_OFFSET]);
    }
    assert forall|i: int|
        SOUND_EFFECTS_OFFSET <= i < SOUND_EFFECTS_OFFSET + SOUND_EFFECT_SIZE * SOUND_EFFECT_COUNT implies #[trigger] b[i]
        == si[i - SOUND_EFFECTS_OFFSET] by {
        assert(body[i] == si[i - SOUND_EFFECTS_OFFSET]);
    }
    // Scalar fields.
    assert(b.subrange(0, 8) =~= h.subrange(0, 8));
    crate::bytes::lemma_be64_read(b, 0, l.version);
    assert(b.subrange(0x10, 0x12) =~= h.subrange(0x10, 0x12));
    crate::bytes::lemma_be16_read(b, 0x10, l.creation_time.year);
    assert(creation_time_of(b) == l.creation_time);
    let nf = b.subrange(NAME_OFFSET as int, NAME_OFFSET + NAME_FIELD_SIZE);
    assert(nf =~= h.subrange(NAME_OFFSET as int, NAME_OFFSET + NAME_FIELD_SIZE));
    crate::text::lemma_name_round_trip(l.level_name@);
    lemma_game_mode_tags(l.game_mode, 0, 0);
    assert(b.subrange(TIME_LIMIT_OFFSET as int, TIME_LIMIT_OFFSET + 2) =~= h.subrange(
        TIME_LIMIT_OFFSET as int,
        TIME_LIMIT_OFFSET + 2,
    ));
    crate::bytes::lemma_be16_read(b, TIME_LIMIT_OFFSET as int, l.time_limit);
    assert(b.subrange(WIDTH_OFFSET as int, WIDTH_OFFSET + 4) =~= h.subrange(
        WIDTH_OFFSET as int,
        WIDTH_OFFSET + 4,
    ));
    crate::bytes::lemma_be32_read(b, WIDTH_OFFSET as int, l.width);
    assert(b.subrange(MII_OFFSET as int, MII_OFFSET + MII_SIZE) =~= h.subrange(
        MII_OFFSET as int,
        MII_OFFSET + MII_SIZE,
    ));
    assert(b.subrange(OBJECT_COUNT_OFFSET as int, OBJECT_COUNT_OFFSET + 4) =~= h.subrange(
        OBJECT_COUNT_OFFSET as int,
        OBJECT_COUNT_OFFSET + 4,
    ));
    crate::bytes::lemma_be32_read(b, OBJECT_COUNT_OFFSET as int, n as u32);
    assert(course_theme_of(course_theme_value(l.course_theme)) == Some(l.course_theme));
    assert(auto_scroll_of(auto_scroll_value(l.auto_scroll)) == Some(l.auto_scroll));
    // The object table.
    let os = l.objects@.map_values(|o: Object| object_image(o));
    crate::bytes::lemma_concat_all(os, OBJECT_SIZE as nat);
    assert forall|i: int| 0 <= i < n implies #[trigger] object_of(object_record(b, i))
        == l.objects@[i] by {
        crate::objects::lemma_object_round_trip(l.objects@[i]);
        assert(os[i] == object_image(l.objects@[i]));
        assert(oi.subrange(i * OBJECT_SIZE, i * OBJECT_SIZE + OBJECT_SIZE) == os[i]);
        assert(object_record(b, i) =~= oi.subrange(i * OBJECT_SIZE, i * OBJECT_SIZE + OBJECT_SIZE));
    }
    assert(l.objects@ =~= Seq::new(n, |i: int| object_of(object_record(b, i))));
    // The sound-effect table.
    let es = l.sound_effects@.map_values(|e: SoundEffect| sound_effect_image(e));
    crate::bytes::lemma_concat_all(es, SOUND_EFFECT_SIZE as nat);
    assert forall|i: int| 0 <= i < SOUND_EFFECT_COUNT implies #[trigger] sound_effect_of(
        sound_effect_record(b, i),
    ) == l.sound_effects@[i] by {
        crate::sound_effects::lemma_sound_effect_round_trip(l.sound_effects@[i]);
        assert(es[i] == sound_effect_image(l.sound_effects@[i]));
        assert(si.subrange(i * SOUND_EFFECT_SIZE, i * SOUND_EFFECT_SIZE + SOUND_EFFECT_SIZE)
            == es[i]);
        assert(sound_effect_record(b, i) =~= si.subrange(
            i * SOUND_EFFECT_SIZE,
            i * SOUND_EFFECT_SIZE + SOUND_EFFECT_SIZE,
        ));
    }
    assert(l.sound_effects@ =~= Seq::new(
        SOUND_EFFECT_COUNT as nat,
        |i: int| sound_effect_of(sound_effect_record(b, i)),
    ));
}

/// Two levels whose fields hold the same values.
pub open spec fn same_level(a: Level, b: Level) -> bool {
    &&& a.version == b.version
    &&& a.creation_time == b.creation_time
    &&& a.level_name@ == b.level_name@
    &&& a.game_mode == b.game_mode
    &&& a.course_theme == b.course_theme
    &&& a.time_limit == b.time_limit
    &&& a.auto_scroll == b.auto_scroll
    &&& a.flags == b.flags
    &&& a.width == b.width
    &&& a.mii_data@ == b.mii_data@
    &&& a.objects@ == b.objects@
    &&& a.sound_effects@ == b.sound_effects@
}

/// The wire form depends on the values of the fields alone: levels with the
/// same fields encode to the same bytes, so encoding a level twice gives
/// identical output.
pub proof fn lemma_level_encoding_deterministic(a: Level, b: Level)
    requires
        same_level(a, b),
    ensures
        level_image(a) == level_image(b),
{
    assert(level_header(a) == level_header(b));
}

/// The checksum stored in the wire form of a level is the CRC-32 of that
/// output from `CHECKSUM_START` to the end.
pub proof fn lemma_level_checksum(l: Level)
    requires
        level_encodable(l),
    ensures
        read_be32(level_image(l), CHECKSUM_OFFSET as int) == crc32_of(
            level_image(l).subrange(CHECKSUM_START as int, LEVEL_SIZE as int),
        ),
{
    lemma_level_body_len(l);
    let body = level_body(l);
    let b = level_image(l);
    let crc = crc32_of(body.subrange(CHECKSUM_START as int, LEVEL_SIZE as int));
    assert(b.subrange(CHECKSUM_OFFSET as int, CHECKSUM_OFFSET + 4) =~= be32(crc));
    crate::bytes::lemma_be32_read(b, CHECKSUM_OFFSET as int, crc);
    assert(b.subrange(CHECKSUM_START as int, LEVEL_SIZE as int) =~= body.subrange(
        CHECKSUM_START as int,
        LEVEL_SIZE as int,
    ));
}

} // verus!
