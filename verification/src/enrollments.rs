//! Enrollment records from the learning-management system, and the field
//! mapping that turns one into an export row.

use vstd::prelude::*;
use vstd::string::StringExecFns;

use crate::text::str_eq;

verus! {

/// One course, as an account's course listing returns it.
#[derive(Debug, PartialEq)]
pub struct Course {
    pub id: i32,
    pub sis_course_id: Option<String>,
    pub workflow_state: String,
    pub name: String,
}

/// Whether a course is worth walking for enrollments: it carries a SIS
/// course id and has been published.
pub open spec fn keep_course(c: Course) -> bool {
    c.sis_course_id is Some && c.workflow_state@ != "unpublished"@
}

/// The subsequence of courses worth walking, in their given order.
pub open spec fn walkable_courses_of(s: Seq<Course>) -> Seq<Course>
    decreases s.len(),
{
    if s.len() == 0 {
        Seq::empty()
    } else if keep_course(s[0]) {
        seq![s[0]] + walkable_courses_of(s.drop_first())
    } else {
        walkable_courses_of(s.drop_first())
    }
}

/// The courses that carry a SIS course id and are not unpublished, in
/// their given order; the exam-room listing walks only these.  (The
/// caller further narrows them by its room-name pattern.)
pub fn published_courses_with_sis(courses: Vec<Course>) -> (r: Vec<Course>)
    ensures
        r@ == walkable_courses_of(courses@),
{
    let ghost orig = courses@;
    let mut rest = courses;
    let mut result: Vec<Course> = Vec::new();
    while rest.len() > 0
        invariant
            walkable_courses_of(orig) == result@ + walkable_courses_of(rest@),
        decreases rest@.len(),
    {
        let ghost before = rest@;
        let c = rest.remove(0);
        proof {
            assert(before.drop_first() =~= rest@);
        }
        if c.sis_course_id.is_some() && !str_eq(c.workflow_state.as_str(), "unpublished") {
            result.push(c);
            proof {
                assert(walkable_courses_of(before) =~= seq![before[0]] + walkable_courses_of(
                    rest@,
                ));
                assert(walkable_courses_of(orig) =~= result@ + walkable_courses_of(rest@));
            }
        } else {
            proof {
                assert(walkable_courses_of(before) == walkable_courses_of(rest@));
            }
        }
    }
    proof {
        assert(walkable_courses_of(rest@) =~= Seq::<Course>::empty());
        assert(walkable_courses_of(orig) =~= result@);
    }
    result
}

/// One enrollment of a user in a section.
#[derive(Debug, PartialEq)]
pub struct Enrollment {
    pub id: i32,
    pub sis_user_id: Option<String>,
    pub sis_section_id: Option<String>,
    pub role: String,
    pub user: User,
}

/// The user an enrollment belongs to.
#[derive(Debug, PartialEq)]
pub struct User {
    pub sortable_name: Option<String>,
    pub login_id: Option<String>,
}

/// One row of the enrollment exports' CSV shape.
#[derive(Debug)]
pub struct EnrollmentRow {
    pub name: String,
    pub course: String,
    pub role: String,
    pub section: String,
    pub mail1: String,
    pub mail2: String,
}

/// An optional field as the exports print it: its value, or `??`.
pub open spec fn or_unknown(o: Option<String>) -> Seq<char> {
    match o {
        Some(s) => s@,
        None => "??"@,
    }
}

/// The mail address derived from an optional user identifier, or `??`.
pub open spec fn mail_of(o: Option<String>) -> Seq<char> {
    match o {
        Some(u) => u@ + "@kth.se"@,
        None => "??"@,
    }
}

fn or_unknown_exec(o: &Option<String>) -> (r: String)
    ensures
        r@ == or_unknown(*o),
{
    match o {
        Some(s) => s.clone(),
        None => "??".to_owned(),
    }
}

fn mail_exec(o: &Option<String>) -> (r: String)
    ensures
        r@ == mail_of(*o),
{
    match o {
        Some(u) => {
            let mut m = u.clone();
            m.append("@kth.se");
            m
        },
        None => "??".to_owned(),
    }
}

/// The export row for one enrollment under the given course label:
/// missing names, sections and identifiers print as `??`, and the mail
/// column is the SIS user id under the institutional domain.
pub fn enrollment_row(course: &str, enrollment: &Enrollment) -> (r: EnrollmentRow)
    ensures
        r.course@ == course@,
        r.name@ == or_unknown(enrollment.user.sortable_name),
        r.role@ == enrollment.role@,
        r.section@ == or_unknown(enrollment.sis_section_id),
        r.mail1@ == mail_of(enrollment.sis_user_id),
        r.mail2@ == or_unknown(enrollment.user.login_id),
{
    EnrollmentRow {
        name: or_unknown_exec(&enrollment.user.sortable_name),
        course: course.to_owned(),
        role: enrollment.role.clone(),
        section: or_unknown_exec(&enrollment.sis_section_id),
        mail1: mail_exec(&enrollment.sis_user_id),
        mail2: or_unknown_exec(&enrollment.user.login_id),
    }
}

/// The subsequence of enrollments that carry a SIS user id, in order.
pub open spec fn with_user_of(s: Seq<Enrollment>) -> Seq<Enrollment>
    decreases s.len(),
{
    if s.len() == 0 {
        Seq::empty()
    } else if s[0].sis_user_id is Some {
        seq![s[0]] + with_user_of(s.drop_first())
    } else {
        with_user_of(s.drop_first())
    }
}

/// The enrollments that carry a SIS user id, in their given order: the
/// exports list only users the student registry knows.
pub fn enrollments_with_user(enrollments: Vec<Enrollment>) -> (r: Vec<Enrollment>)
    ensures
        r@ == with_user_of(enrollments@),
{
    let ghost orig = enrollments@;
    let mut rest = enrollments;
    let mut result: Vec<Enrollment> = Vec::new();
    while rest.len() > 0
        invariant
            with_user_of(orig) == result@ + with_user_of(rest@),
        decreases rest@.len(),
    {
        let ghost before = rest@;
        let e = rest.remove(0);
        proof {
            assert(before.drop_first() =~= rest@);
        }
        if e.sis_user_id.is_some() {
            result.push(e);
            proof {
                assert(with_user_of(before) =~= seq![before[0]] + with_user_of(rest@));
                assert(with_user_of(orig) =~= result@ + with_user_of(rest@));
            }
        } else {
            proof {
                assert(with_user_of(before) == with_user_of(rest@));
            }
        }
    }
    proof {
        assert(with_user_of(rest@) =~= Seq::<Enrollment>::empty());
        assert(with_user_of(orig) =~= result@);
    }
    result
}

} // verus!
