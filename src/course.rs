//! A course: two levels and two thumbnails, read from four named members.
use vstd::prelude::*;

use crate::level::{level_decodable, level_decodes_to, Level};
use crate::thumbnail::{thumbnail_decodable, thumbnail_payload, Thumbnail};
use crate::Error;

verus! {

/// Which of the four members of a course bundle.
#[derive(Debug, Clone, Copy, PartialEq, Eq, Structural)]
pub enum CourseData {
    CourseData,
    CourseDataSub,
    Thumbnail0,
    Thumbnail1,
}

/// The file name of each member.
pub open spec fn member_name(which: CourseData) -> Seq<char> {
    match which {
        CourseData::CourseData => "course_data.cdt"@,
        CourseData::CourseDataSub => "course_data_sub.cdt"@,
        CourseData::Thumbnail0 => "thumbnail0.tnl"@,
        CourseData::Thumbnail1 => "thumbnail1.tnl"@,
    }
}

/// The bytes of the last member called `name`, if there is one.
pub open spec fn last_member(members: Seq<(String, Vec<u8>)>, name: Seq<char>) -> Option<Seq<u8>>
    decreases members.len(),
{
    if members.len() == 0 {
        None
    } else if members.last().0@ == name {
        Some(members.last().1@)
    } else {
        last_member(members.drop_last(), name)
    }
}

/// The first of the four buffers that does not decode, as an error naming
/// it, or `None` where all four decode.
pub open spec fn course_error(level: Seq<u8>, sub_level: Seq<u8>, preview: Seq<u8>, thumbnail: Seq<
    u8,
>) -> Option<Error> {
    if !level_decodable(level) {
        Some(Error::InvalidCourseData(CourseData::CourseData))
    } else if !level_decodable(sub_level) {
        Some(Error::InvalidCourseData(CourseData::CourseDataSub))
    } else if !thumbnail_decodable(preview) {
        Some(Error::InvalidCourseData(CourseData::Thumbnail0))
    } else if !thumbnail_decodable(thumbnail) {
        Some(Error::InvalidCourseData(CourseData::Thumbnail1))
    } else {
        None
    }
}

/// `c` is the course that the four buffers hold.
pub open spec fn course_decodes_to(
    level: Seq<u8>,
    sub_level: Seq<u8>,
    preview: Seq<u8>,
    thumbnail: Seq<u8>,
    c: Course,
) -> bool {
    &&& level_decodes_to(level, c.level)
    &&& level_decodes_to(sub_level, c.sub_level)
    &&& c.level_preview.jpeg_data@ == thumbnail_payload(preview)
    &&& c.level_thumbnail.jpeg_data@ == thumbnail_payload(thumbnail)
}

/// Two levels and their two thumbnails.
#[derive(Debug, Clone, PartialEq, Eq)]
pub struct Course {
    pub level: Level,
    pub sub_level: Level,
    pub level_preview: Thumbnail,
    pub level_thumbnail: Thumbnail,
}

fn member_file_name(which: CourseData) -> (r: String)
    ensures
        r@ == member_name(which),
{
    match which {
        CourseData::CourseData => "course_data.cdt".to_owned(),
        CourseData::CourseDataSub => "course_data_sub.cdt".to_owned(),
        CourseData::Thumbnail0 => "thumbnail0.tnl".to_owned(),
        CourseData::Thumbnail1 => "thumbnail1.tnl".to_owned(),
    }
}

/// Index of the last member called `name`.
fn find_member(members: &Vec<(String, Vec<u8>)>, name: &String) -> (r: Option<usize>)
    ensures
        r is None <==> last_member(members@, name@) is None,
        r matches Some(i) ==> i < members@.len() && last_member(members@, name@) == Some(
            members@[i as int].1@,
        ),
{
    let mut found: Option<usize> = None;
    let mut i: usize = 0;
    while i < members.len()
        invariant
            i <= members@.len(),
            match found {
                None => last_member(members@.take(i as int), name@) is None,
                Some(j) => j < i && last_member(members@.take(i as int), name@) == Some(
                    members@[j as int].1@,
                ),
            },
        decreases members@.len() - i,
    {
        assert(members@.take(i + 1).drop_last() =~= members@.take(i as int));
        if members[i].0 == *name {
            found = Some(i);
        }
        i = i + 1;
    }
    assert(members@.take(members@.len() as int) =~= members@);
    found
}

impl Course {
    pub fn new(
        level: Level,
        sub_level: Level,
        level_preview: Thumbnail,
        level_thumbnail: Thumbnail,
    ) -> (r: Course)
        ensures
            r == (Course { level, sub_level, level_preview, level_thumbnail }),
    {
        Course { level, sub_level, level_preview, level_thumbnail }
    }

    /// Decodes the four members; the first that does not decode is named in
    /// the error.
    pub fn from_bytes(
        level: &[u8],
        sub_level: &[u8],
        level_preview: &[u8],
        level_thumbnail: &[u8],
    ) -> (r: Result<Course, Error>)
        ensures
            r is Ok <==> course_error(level@, sub_level@, level_preview@, level_thumbnail@) is None,
            r matches Err(e) ==> course_error(level@, sub_level@, level_preview@, level_thumbnail@)
                == Some(e),
            r matches Ok(c) ==> course_decodes_to(
                level@,
                sub_level@,
                level_preview@,
                level_thumbnail@,
                c,
            ),
    {
        let level = match Level::from_bytes(level) {
            Ok(l) => l,
            Err(_) => {
                return Err(Error::InvalidCourseData(CourseData::CourseData));
            },
        };
        let sub_level = match Level::from_bytes(sub_level) {
            Ok(l) => l,
            Err(_) => {
                return Err(Error::InvalidCourseData(CourseData::CourseDataSub));
            },
        };
        let level_preview = match Thumbnail::from_bytes(level_preview) {
            Ok(t) => t,
            Err(_) => {
                return Err(Error::InvalidCourseData(CourseData::Thumbnail0));
            },
        };
        let level_thumbnail = match Thumbnail::from_bytes(level_thumbnail) {
            Ok(t) => t,
            Err(_) => {
                return Err(Error::InvalidCourseData(CourseData::Thumbnail1));
            },
        };
        Ok(Course { level, sub_level, level_preview, level_thumbnail })
    }

    /// Builds a course from named members, as an archive holds them. Other
    /// names are ignored; where a name occurs twice the last one counts. A
    /// missing member is named in the error before any member is decoded.
    pub fn from_members(members: &Vec<(String, Vec<u8>)>) -> (r: Result<Course, Error>)
        ensures
            last_member(members@, member_name(CourseData::CourseData)) is None ==> r == Err::<
                Course,
                Error,
            >(Error::MissingCourseData(CourseData::CourseData)),
            last_member(members@, member_name(CourseData::CourseData)) is Some && last_member(
                members@,
                member_name(CourseData::CourseDataSub),
            ) is None ==> r == Err::<Course, Error>(
                Error::MissingCourseData(CourseData::CourseDataSub),
            ),
            last_member(members@, member_name(CourseData::CourseData)) is Some && last_member(
                members@,
                member_name(CourseData::CourseDataSub),
            ) is Some && last_member(members@, member_name(CourseData::Thumbnail0)) is None ==> r
                == Err::<Course, Error>(Error::MissingCourseData(CourseData::Thumbnail0)),
            last_member(members@, member_name(CourseData::CourseData)) is Some && last_member(
                members@,
                member_name(CourseData::CourseDataSub),
            ) is Some && last_member(members@, member_name(CourseData::Thumbnail0)) is Some
                && last_member(members@, member_name(CourseData::Thumbnail1)) is None ==> r
                == Err::<Course, Error>(Error::MissingCourseData(CourseData::Thumbnail1)),
            ({
                let l = last_member(members@, member_name(CourseData::CourseData));
                let s = last_member(members@, member_name(CourseData::CourseDataSub));
                let p = last_member(members@, member_name(CourseData::Thumbnail0));
                let t = last_member(members@, member_name(CourseData::Thumbnail1));
                l is Some && s is Some && p is Some && t is Some ==> {
                    &&& (r is Ok <==> course_error(l->0, s->0, p->0, t->0) is None)
                    &&& (r matches Err(e) ==> course_error(l->0, s->0, p->0, t->0) == Some(e))
                    &&& (r matches Ok(c) ==> course_decodes_to(l->0, s->0, p->0, t->0, c))
                }
            }),
    {
        let l = find_member(members, &member_file_name(CourseData::CourseData));
        let s = find_member(members, &member_file_name(CourseData::CourseDataSub));
        let p = find_member(members, &member_file_name(CourseData::Thumbnail0));
        let t = find_member(members, &member_file_name(CourseData::Thumbnail1));
        let l = match l {
            Some(i) => i,
            None => {
                return Err(Error::MissingCourseData(CourseData::CourseData));
            },
        };
        let s = match s {
            Some(i) => i,
            None => {
                return Err(Error::MissingCourseData(CourseData::CourseDataSub));
            },
        };
        let p = match p {
            Some(i) => i,
            None => {
                return Err(Error::MissingCourseData(CourseData::Thumbnail0));
            },
        };
        let t = match t {
            Some(i) => i,
            None => {
                return Err(Error::MissingCourseData(CourseData::Thumbnail1));
            },
        };
        Course::from_bytes(
            members[l].1.as_slice(),
            members[s].1.as_slice(),
            members[p].1.as_slice(),
            members[t].1.as_slice(),
        )
    }
}

} // verus!
