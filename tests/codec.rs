use smm_course::calendar::CreationTime;
use smm_course::course::{Course, CourseData};
use smm_course::level::{AutoScroll, CourseTheme, GameMode, Level};
use smm_course::objects::Object;
use smm_course::sound_effects::SoundEffect;
use smm_course::text::{decode_name, encode_name};
use smm_course::thumbnail::Thumbnail;
use smm_course::Error;

fn sample_object(seed: u32) -> Object {
    Object::new(
        seed * 160 + 80,
        3,
        -250,
        2,
        -1,
        0x0600_0040,
        0x8000_0000,
        seed,
        14,
        -1,
        -1,
        7,
        -1,
        4,
    )
}

fn sample_level(name: &str, n_objects: u32) -> Level {
    let mut mii = [0u8; 96];
    for (i, b) in mii.iter_mut().enumerate() {
        *b = (i * 7 + 1) as u8;
    }
    let objects = (0..n_objects).map(sample_object).collect::<Vec<_>>();
    let sound_effects = (0..300u32).map(|i| SoundEffect::new(i * 0x0101_0101)).collect::<Vec<_>>();
    Level::new(
        0xB,
        CreationTime::new(2016, 9, 11, 13, 45).unwrap(),
        name.to_string(),
        GameMode::MarioWorld,
        CourseTheme::GhostHouse,
        500,
        AutoScroll::Medium,
        0x02,
        3840,
        mii,
        objects,
        sound_effects,
    )
}

fn crc32(bytes: &[u8]) -> u32 {
    crc32fast::hash(bytes)
}

#[test]
fn object_wire_form() {
    let o = Object::new(0x0102_0304, 0x0506_0708, -2, -3, 4, 0x0A0B_0C0D, 0x1112_1314, 0x2122_2324, -5, 6, 0x3132, -1, -7, 8);
    let b = o.to_bytes();
    assert_eq!(
        b,
        vec![
            1, 2, 3, 4, 5, 6, 7, 8, 0xFF, 0xFE, 0xFD, 4, 0x0A, 0x0B, 0x0C, 0x0D, 0x11, 0x12, 0x13,
            0x14, 0x21, 0x22, 0x23, 0x24, 0xFB, 6, 0x31, 0x32, 0xFF, 0xFF, 0xF9, 8
        ]
    );
    assert_eq!(Object::from_bytes(&b), Ok(o));
    assert_eq!(Object::from_bytes(&b[..31]), Err(Error::InvalidData));
}

#[test]
fn object_blocks() {
    let o = Object::new(165, 99, -15, 1, 1, 0, 0, 0, 0, 0, -1, -1, -1, -1);
    assert_eq!(o.get_x_block(), 16);
    assert_eq!(o.get_z_block(), 9);
    assert_eq!(o.get_y_block(), -1);
    let p = Object::new(0, 0, 275, 1, 1, 0, 0, 0, 0, 0, -1, -1, -1, -1);
    assert_eq!(p.get_y_block(), 27);
}

#[test]
fn sound_effect_wire_form() {
    let e = SoundEffect::new(0xDEAD_BEEF);
    let b = e.to_bytes();
    assert_eq!(b, vec![0xDE, 0xAD, 0xBE, 0xEF, 0, 0, 0, 0]);
    assert_eq!(SoundEffect::from_bytes(&b), Ok(e));
    assert_eq!(SoundEffect::from_bytes(&b[..7]), Err(Error::InvalidData));
}

#[test]
fn name_encodes_big_endian_units() {
    let b = encode_name("Hé").unwrap();
    assert_eq!(b.len(), 66);
    assert_eq!(&b[..6], &[0x00, 0x48, 0x00, 0xE9, 0x00, 0x00]);
    assert!(b[4..].iter().all(|&x| x == 0));
    let k = encode_name("Ω").unwrap();
    assert_eq!(&k[..2], &[0x03, 0xA9]);
}

#[test]
fn name_of_32_characters_is_terminated() {
    let name = "ABCDEFGHIJKLMNOPQRSTUVWXYZabcdef";
    assert_eq!(name.chars().count(), 32);
    let b = encode_name(name).unwrap();
    assert_eq!(b.len(), 66);
    for (i, c) in name.chars().enumerate() {
        assert_eq!(b[2 * i], 0);
        assert_eq!(b[2 * i + 1], c as u8);
    }
    assert_eq!(&b[64..66], &[0, 0]);
    assert_eq!(decode_name(&b).unwrap(), name);
}

#[test]
fn name_too_long_or_outside_the_plane() {
    assert_eq!(encode_name("ABCDEFGHIJKLMNOPQRSTUVWXYZabcdefg"), Err(Error::InvalidName));
    assert_eq!(encode_name("smile \u{1F600}"), Err(Error::InvalidName));
    assert_eq!(encode_name("").unwrap(), vec![0u8; 66]);
}

#[test]
fn name_decoding_stops_at_first_zero() {
    let mut f = vec![0u8; 66];
    f[1] = b'O';
    f[3] = b'K';
    f[7] = b'X';
    assert_eq!(decode_name(&f).unwrap(), "OK");
    let mut s = vec![0u8; 66];
    s[0] = 0xD8;
    assert_eq!(decode_name(&s), Err(Error::InvalidData));
    s[2] = 0;
    let mut after = vec![0u8; 66];
    after[1] = b'A';
    after[4] = 0xD8;
    assert_eq!(decode_name(&after).unwrap(), "A");
    assert_eq!(decode_name(&f[..64]), Err(Error::InvalidData));
}

#[test]
fn thumbnail_round_trip() {
    let t = Thumbnail::new(vec![0xFF, 0xD8, 0xFF, 0xE0, 1, 2, 3]);
    let b = t.to_bytes().unwrap();
    assert_eq!(b.len(), 0xC800);
    assert_eq!(&b[4..8], &[0, 0, 0, 7]);
    assert_eq!(&b[8..15], &[0xFF, 0xD8, 0xFF, 0xE0, 1, 2, 3]);
    assert!(b[15..].iter().all(|&x| x == 0));
    assert_eq!(u32::from_be_bytes([b[0], b[1], b[2], b[3]]), crc32(&b[4..]));
    assert!(Thumbnail::checksum_matches(&b));
    assert_eq!(Thumbnail::from_bytes(&b), Ok(t));
}

#[test]
fn thumbnail_size_boundary() {
    let fits = Thumbnail::new(vec![0xAB; 0xC7F8]);
    let b = fits.to_bytes().unwrap();
    assert_eq!(b.len(), 0xC800);
    assert_eq!(Thumbnail::from_bytes(&b), Ok(fits));
    let over = Thumbnail::new(vec![0xAB; 0xC7F9]);
    assert_eq!(over.to_bytes(), Err(Error::FileTooLarge));
}

#[test]
fn thumbnail_bad_length_prefix() {
    assert_eq!(Thumbnail::from_bytes(&[0, 0, 0, 0, 0, 0, 0]), Err(Error::InvalidData));
    assert_eq!(Thumbnail::from_bytes(&[0, 0, 0, 0, 0, 0, 0, 3, 1, 2]), Err(Error::InvalidData));
    assert_eq!(
        Thumbnail::from_bytes(&[9, 9, 9, 9, 0, 0, 0, 2, 1, 2]),
        Ok(Thumbnail::new(vec![1, 2]))
    );
    let mut b = Thumbnail::new(vec![5]).to_bytes().unwrap();
    b[8] = 6;
    assert!(!Thumbnail::checksum_matches(&b));
}

#[test]
fn level_round_trip() {
    let level = sample_level("Ghost Maze", 5);
    let bytes = level.to_bytes().unwrap();
    assert_eq!(bytes.len(), 0x15000);
    assert_eq!(Level::from_bytes(&bytes), Ok(level));
}

#[test]
fn level_full_object_table_round_trip() {
    let level = sample_level("Full", 2600);
    let bytes = level.to_bytes().unwrap();
    assert_eq!(Level::from_bytes(&bytes), Ok(level));
}

#[test]
fn level_layout() {
    let level = sample_level("Hi", 2);
    let b = level.to_bytes().unwrap();
    assert_eq!(&b[0..8], &[0, 0, 0, 0, 0, 0, 0, 0x0B]);
    assert_eq!(&b[0x0C..0x10], &[0, 0, 0, 0]);
    assert_eq!(&b[0x10..0x16], &[0x07, 0xE0, 9, 11, 13, 45]);
    assert!(b[0x16..0x28].iter().all(|&x| x == 0));
    assert_eq!(&b[0x28..0x2E], &[0, b'H', 0, b'i', 0, 0]);
    assert_eq!(&b[0x6A..0x6C], b"MW");
    assert_eq!(b[0x6C], 0);
    assert_eq!(b[0x6D], 5);
    assert_eq!(&b[0x70..0x72], &[0x01, 0xF4]);
    assert_eq!(b[0x72], 2);
    assert_eq!(b[0x73], 2);
    assert_eq!(&b[0x74..0x78], &[0, 0, 0x0F, 0]);
    assert_eq!(&b[0x78..0xD8], &level.mii_data[..]);
    assert_eq!(&b[0xEC..0xF0], &[0, 0, 0, 2]);
    assert_eq!(&b[0xF0..0x110], &sample_object(0).to_bytes()[..]);
    assert_eq!(&b[0x110..0x130], &sample_object(1).to_bytes()[..]);
    assert!(b[0x130..0x145F0].iter().all(|&x| x == 0));
    assert_eq!(&b[0x145F8..0x14600], &[1, 1, 1, 1, 0, 0, 0, 0]);
    assert!(b[0x14F50..].iter().all(|&x| x == 0));
}

#[test]
fn level_checksum_is_deterministic() {
    let level = sample_level("Same", 3);
    let a = level.to_bytes().unwrap();
    let b = level.clone().to_bytes().unwrap();
    assert_eq!(a, b);
    assert_eq!(u32::from_be_bytes([a[8], a[9], a[10], a[11]]), crc32(&a[0x10..]));
    assert!(Level::checksum_matches(&a));
    let mut c = a.clone();
    c[0x200] ^= 1;
    assert!(!Level::checksum_matches(&c));
}

fn minimal_level_buffer() -> Vec<u8> {
    let mut b = vec![0u8; 0x15000];
    b[0x10] = 0x07;
    b[0x11] = 0xE4;
    b[0x12] = 1;
    b[0x13] = 1;
    b[0x6A] = b'M';
    b[0x6B] = b'1';
    b
}

#[test]
fn level_size_boundary() {
    let b = minimal_level_buffer();
    let l = Level::from_bytes(&b).unwrap();
    assert!(l.objects.is_empty());
    assert_eq!(l.sound_effects.len(), 300);
    assert_eq!(l.level_name, "");
    assert_eq!(l.game_mode, GameMode::SuperMarioBros);
    let mut short = b.clone();
    short.pop();
    assert_eq!(Level::from_bytes(&short), Err(Error::InvalidData));
    let mut long = b.clone();
    long.push(0);
    assert_eq!(Level::from_bytes(&long), Err(Error::InvalidData));
}

#[test]
fn level_rejects_bad_fields() {
    let good = minimal_level_buffer();
    let mut bad_theme = good.clone();
    bad_theme[0x6D] = 6;
    assert_eq!(Level::from_bytes(&bad_theme), Err(Error::InvalidData));
    let mut bad_scroll = good.clone();
    bad_scroll[0x72] = 4;
    assert_eq!(Level::from_bytes(&bad_scroll), Err(Error::InvalidData));
    let mut bad_date = good.clone();
    bad_date[0x12] = 2;
    bad_date[0x13] = 30;
    assert_eq!(Level::from_bytes(&bad_date), Err(Error::InvalidData));
    let mut bad_hour = good.clone();
    bad_hour[0x14] = 24;
    assert_eq!(Level::from_bytes(&bad_hour), Err(Error::InvalidData));
    let mut bad_count = good.clone();
    bad_count[0xEC..0xF0].copy_from_slice(&2601u32.to_be_bytes());
    assert_eq!(Level::from_bytes(&bad_count), Err(Error::InvalidData));
    let mut bad_name = good.clone();
    bad_name[0x28] = 0xDC;
    assert_eq!(Level::from_bytes(&bad_name), Err(Error::InvalidData));
}

#[test]
fn game_mode_tags() {
    let cases = [
        (GameMode::SuperMarioBros, *b"M1"),
        (GameMode::Mario3, *b"M3"),
        (GameMode::MarioWorld, *b"MW"),
        (GameMode::NewSuperMarioBrosU, *b"WU"),
    ];
    for (mode, tag) in cases {
        assert_eq!(GameMode::unpack(&tag), Ok(mode));
        assert_eq!(mode.pack(), tag);
        let mut b = minimal_level_buffer();
        b[0x6A] = tag[0];
        b[0x6B] = tag[1];
        let l = Level::from_bytes(&b).unwrap();
        assert_eq!(l.game_mode, mode);
        assert_eq!(&l.to_bytes().unwrap()[0x6A..0x6C], &tag);
    }
    for tag in [*b"M2", *b"WW", *b"1M", *b"mw", [0, 0]] {
        assert_eq!(GameMode::unpack(&tag), Err(Error::InvalidData));
        let mut b = minimal_level_buffer();
        b[0x6A] = tag[0];
        b[0x6B] = tag[1];
        assert_eq!(Level::from_bytes(&b), Err(Error::InvalidData));
    }
}

#[test]
fn theme_and_scroll_ordinals() {
    assert_eq!(CourseTheme::from_u8(3), Some(CourseTheme::Airship));
    assert_eq!(CourseTheme::Water.to_u8(), 4);
    assert_eq!(CourseTheme::from_u8(6), None);
    assert_eq!(AutoScroll::from_u8(3), Some(AutoScroll::Fast));
    assert_eq!(AutoScroll::Off.to_u8(), 0);
    assert_eq!(AutoScroll::from_u8(4), None);
}

#[test]
fn level_encode_errors() {
    let mut long_name = sample_level("x", 0);
    long_name.level_name = "y".repeat(33);
    assert_eq!(long_name.to_bytes(), Err(Error::InvalidName));
    let mut bad_time = sample_level("x", 0);
    bad_time.creation_time = CreationTime { year: 2019, month: 2, day: 29, hour: 0, minute: 0 };
    assert_eq!(bad_time.to_bytes(), Err(Error::InvalidData));
    let too_many = sample_level("x", 2601);
    assert_eq!(too_many.to_bytes(), Err(Error::TooManyObjects));
    let mut few_effects = sample_level("x", 0);
    few_effects.sound_effects.pop();
    assert_eq!(few_effects.to_bytes(), Err(Error::InvalidData));
}

#[test]
fn creation_time_validity() {
    assert!(CreationTime::new(2020, 2, 29, 23, 59).is_some());
    assert!(CreationTime::new(2000, 2, 29, 0, 0).is_some());
    assert!(CreationTime::new(1900, 2, 29, 0, 0).is_none());
    assert!(CreationTime::new(2021, 4, 31, 0, 0).is_none());
    assert!(CreationTime::new(2021, 13, 1, 0, 0).is_none());
    assert!(CreationTime::new(2021, 1, 0, 0, 0).is_none());
    assert!(CreationTime::new(2021, 1, 1, 24, 0).is_none());
    assert!(CreationTime::new(2021, 1, 1, 0, 60).is_none());
}

#[test]
fn level_blocks() {
    let level = sample_level("b", 0);
    assert_eq!(level.block_width(), 240);
    assert_eq!(level.block_height(), 27);
}

fn members_of(level: &Level, sub: &Level, preview: &Thumbnail, thumb: &Thumbnail) -> Vec<(String, Vec<u8>)> {
    vec![
        ("readme.txt".to_string(), vec![1, 2, 3]),
        ("course_data.cdt".to_string(), level.to_bytes().unwrap()),
        ("course_data_sub.cdt".to_string(), sub.to_bytes().unwrap()),
        ("thumbnail0.tnl".to_string(), preview.to_bytes().unwrap()),
        ("thumbnail1.tnl".to_string(), thumb.to_bytes().unwrap()),
    ]
}

#[test]
fn course_from_members() {
    let level = sample_level("Main", 4);
    let sub = sample_level("Sub", 1);
    let preview = Thumbnail::new(vec![1, 2, 3]);
    let thumb = Thumbnail::new(vec![4, 5]);
    let members = members_of(&level, &sub, &preview, &thumb);
    let course = Course::from_members(&members).unwrap();
    assert_eq!(course, Course::new(level, sub, preview, thumb));
}

#[test]
fn course_missing_member() {
    let level = sample_level("Main", 4);
    let sub = sample_level("Sub", 1);
    let preview = Thumbnail::new(vec![1, 2, 3]);
    let thumb = Thumbnail::new(vec![4, 5]);
    let all = members_of(&level, &sub, &preview, &thumb);
    let expected = [
        ("course_data.cdt", CourseData::CourseData),
        ("course_data_sub.cdt", CourseData::CourseDataSub),
        ("thumbnail0.tnl", CourseData::Thumbnail0),
        ("thumbnail1.tnl", CourseData::Thumbnail1),
    ];
    for (name, which) in expected {
        let three: Vec<_> = all.iter().filter(|(n, _)| n != name).cloned().collect();
        assert_eq!(Course::from_members(&three), Err(Error::MissingCourseData(which)));
    }
}

#[test]
fn course_invalid_member() {
    let level = sample_level("Main", 4);
    let sub = sample_level("Sub", 1);
    let preview = Thumbnail::new(vec![1, 2, 3]);
    let thumb = Thumbnail::new(vec![4, 5]);
    let all = members_of(&level, &sub, &preview, &thumb);
    let expected = [
        ("course_data.cdt", CourseData::CourseData),
        ("course_data_sub.cdt", CourseData::CourseDataSub),
        ("thumbnail0.tnl", CourseData::Thumbnail0),
        ("thumbnail1.tnl", CourseData::Thumbnail1),
    ];
    for (name, which) in expected {
        let broken: Vec<_> = all
            .iter()
            .map(|(n, b)| if n == name { (n.clone(), b[..5].to_vec()) } else { (n.clone(), b.clone()) })
            .collect();
        assert_eq!(Course::from_members(&broken), Err(Error::InvalidCourseData(which)));
    }
}

#[test]
fn course_last_member_of_a_name_counts() {
    let level = sample_level("Main", 4);
    let sub = sample_level("Sub", 1);
    let preview = Thumbnail::new(vec![1, 2, 3]);
    let thumb = Thumbnail::new(vec![4, 5]);
    let mut members = members_of(&level, &sub, &preview, &thumb);
    let other = Thumbnail::new(vec![9]);
    members.push(("thumbnail1.tnl".to_string(), other.to_bytes().unwrap()));
    let course = Course::from_members(&members).unwrap();
    assert_eq!(course.level_thumbnail, other);
}

#[test]
fn course_from_bytes() {
    let level = sample_level("Main", 4);
    let sub = sample_level("Sub", 1);
    let preview = Thumbnail::new(vec![1, 2, 3]);
    let thumb = Thumbnail::new(vec![4, 5]);
    let lb = level.to_bytes().unwrap();
    let sb = sub.to_bytes().unwrap();
    let pb = preview.to_bytes().unwrap();
    let tb = thumb.to_bytes().unwrap();
    let course = Course::from_bytes(&lb, &sb, &pb, &tb).unwrap();
    assert_eq!(course.level, level);
    assert_eq!(course.sub_level, sub);
    assert_eq!(Course::from_bytes(&lb, &sb[1..], &pb, &tb), Err(Error::InvalidCourseData(CourseData::CourseDataSub)));
    assert_eq!(Course::from_bytes(&lb, &sb, &pb, &[0; 3]), Err(Error::InvalidCourseData(CourseData::Thumbnail1)));
}
