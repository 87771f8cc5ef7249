//! Course-round records from the course-catalog service, and the
//! single-pass filters the exporting utilities apply to them.

use vstd::prelude::*;

use crate::text::{lex_le, str_eq, str_le};

verus! {

/// One course offering round, as the catalog lists it.
#[derive(Debug, Clone)]
pub struct CourseRound {
    pub course_code: String,
    pub first_semester: String,
    pub first_period: String,
    pub school_code: String,
    pub state: String,
    pub offering_id: String,
    pub offered_semesters: Vec<OfferedSemester>,
}

/// One semester a course round is offered in.
#[derive(Debug, Clone)]
pub struct OfferedSemester {
    pub start_date: String,
    pub end_date: String,
    pub start_week: String,
    pub end_week: String,
    pub semester: String,
}

/// A course round with its semester list abstracted to a sequence.
pub struct RoundView {
    pub course_code: String,
    pub first_semester: String,
    pub first_period: String,
    pub school_code: String,
    pub state: String,
    pub offering_id: String,
    pub offered_semesters: Seq<OfferedSemester>,
}

impl View for CourseRound {
    type V = RoundView;

    open spec fn view(&self) -> RoundView {
        RoundView {
            course_code: self.course_code,
            first_semester: self.first_semester,
            first_period: self.first_period,
            school_code: self.school_code,
            state: self.state,
            offering_id: self.offering_id,
            offered_semesters: self.offered_semesters@,
        }
    }
}

/// The SIS identifier of a course round: course code, first semester and
/// offering id, run together.
pub fn make_sis_id(course_round: &CourseRound) -> (r: String)
    ensures
        r@ == course_round.course_code@ + course_round.first_semester@
            + course_round.offering_id@,
{
    let mut sis_id = course_round.course_code.clone();
    sis_id.append(course_round.first_semester.as_str());
    sis_id.append(course_round.offering_id.as_str());
    sis_id
}

/// Whether an offered semester counts for the spring-2020 export: it is
/// the 20201 semester and runs to 2020-03-20 or later.
pub open spec fn keep_semester(s: OfferedSemester) -> bool {
    s.semester@ == "20201"@ && lex_le("2020-03-20"@, s.end_date@)
}

/// The subsequence of semesters that count, in their given order.
pub open spec fn valid_semesters_of(s: Seq<OfferedSemester>) -> Seq<OfferedSemester>
    decreases s.len(),
{
    if s.len() == 0 {
        Seq::empty()
    } else if keep_semester(s[0]) {
        seq![s[0]] + valid_semesters_of(s.drop_first())
    } else {
        valid_semesters_of(s.drop_first())
    }
}

/// The offered semesters that count for the spring-2020 export, in order.
pub fn valid_offered_semesters(all_semesters: Vec<OfferedSemester>) -> (r: Vec<OfferedSemester>)
    ensures
        r@ == valid_semesters_of(all_semesters@),
{
    let ghost orig = all_semesters@;
    let mut rest = all_semesters;
    let mut result: Vec<OfferedSemester> = Vec::new();
    while rest.len() > 0
        invariant
            valid_semesters_of(orig) == result@ + valid_semesters_of(rest@),
        decreases rest@.len(),
    {
        let ghost before = rest@;
        let s = rest.remove(0);
        proof {
            assert(before.drop_first() =~= rest@);
        }
        if str_eq(s.semester.as_str(), "20201") && str_le("2020-03-20", s.end_date.as_str()) {
            result.push(s);
            proof {
                assert(valid_semesters_of(before) =~= seq![before[0]] + valid_semesters_of(rest@));
                assert(valid_semesters_of(orig) =~= result@ + valid_semesters_of(rest@));
            }
        } else {
            proof {
                assert(valid_semesters_of(before) == valid_semesters_of(rest@));
            }
        }
    }
    proof {
        assert(valid_semesters_of(rest@) =~= Seq::<OfferedSemester>::empty());
        assert(valid_semesters_of(orig) =~= result@);
    }
    result
}

/// The subsequence of rounds whose first period carries the given label,
/// in their given order.
pub open spec fn rounds_in_period_of(s: Seq<CourseRound>, label: Seq<char>) -> Seq<CourseRound>
    decreases s.len(),
{
    if s.len() == 0 {
        Seq::empty()
    } else if s[0].first_period@ == label {
        seq![s[0]] + rounds_in_period_of(s.drop_first(), label)
    } else {
        rounds_in_period_of(s.drop_first(), label)
    }
}

/// The rounds whose first period is the chosen year, term and period
/// label, in their given order.
pub fn rounds_in_period(rounds: Vec<CourseRound>, label: &str) -> (r: Vec<CourseRound>)
    ensures
        r@ == rounds_in_period_of(rounds@, label@),
{
    let ghost orig = rounds@;
    let mut rest = rounds;
    let mut result: Vec<CourseRound> = Vec::new();
    while rest.len() > 0
        invariant
            rounds_in_period_of(orig, label@) == result@ + rounds_in_period_of(rest@, label@),
        decreases rest@.len(),
    {
        let ghost before = rest@;
        let s = rest.remove(0);
        proof {
            assert(before.drop_first() =~= rest@);
        }
        if str_eq(s.first_period.as_str(), label) {
            result.push(s);
            proof {
                assert(rounds_in_period_of(before, label@) =~= seq![before[0]]
                    + rounds_in_period_of(rest@, label@));
                assert(rounds_in_period_of(orig, label@) =~= result@ + rounds_in_period_of(
                    rest@,
                    label@,
                ));
            }
        } else {
            proof {
                assert(rounds_in_period_of(before, label@) == rounds_in_period_of(rest@, label@));
            }
        }
    }
    proof {
        assert(rounds_in_period_of(rest@, label@) =~= Seq::<CourseRound>::empty());
        assert(rounds_in_period_of(orig, label@) =~= result@);
    }
    result
}

/// Whether a round belongs in the spring-2020 period-3/period-4 export:
/// approved, starting in one of those periods, and offered in at least one
/// semester that counts.
pub open spec fn keep_round(r: RoundView) -> bool {
    &&& r.state@ == "Godkänt"@
    &&& (r.first_period@ == "20201P3"@ || r.first_period@ == "20201P4"@)
    &&& valid_semesters_of(r.offered_semesters).len() > 0
}

/// A round as the export keeps it: unchanged but for its semester list,
/// which is narrowed to the semesters that count.
pub open spec fn shrink_round(r: RoundView) -> RoundView {
    RoundView { offered_semesters: valid_semesters_of(r.offered_semesters), ..r }
}

/// The views of a list of rounds.
pub open spec fn views_of_rounds(s: Seq<CourseRound>) -> Seq<RoundView> {
    Seq::new(s.len(), |i: int| s[i]@)
}

/// The rounds the export keeps, in order, each with its semester list
/// narrowed.
pub open spec fn rounds_p3_p4(s: Seq<RoundView>) -> Seq<RoundView>
    decreases s.len(),
{
    if s.len() == 0 {
        Seq::empty()
    } else if keep_round(s[0]) {
        seq![shrink_round(s[0])] + rounds_p3_p4(s.drop_first())
    } else {
        rounds_p3_p4(s.drop_first())
    }
}

/// The spring-2020 period-3/period-4 selection: approved rounds starting
/// in period 3 or 4 whose narrowed semester list is non-empty, in their
/// given order.
pub fn filter_course_rounds(rounds: Vec<CourseRound>) -> (r: Vec<CourseRound>)
    ensures
        views_of_rounds(r@) == rounds_p3_p4(views_of_rounds(rounds@)),
{
    let ghost orig = views_of_rounds(rounds@);
    let mut rest = rounds;
    let mut result: Vec<CourseRound> = Vec::new();
    proof {
        assert(views_of_rounds(rest@) =~= orig);
        assert(views_of_rounds(result@) =~= Seq::<RoundView>::empty());
    }
    while rest.len() > 0
        invariant
            rounds_p3_p4(orig) == views_of_rounds(result@) + rounds_p3_p4(views_of_rounds(rest@)),
        decreases rest@.len(),
    {
        let ghost before = views_of_rounds(rest@);
        let s = rest.remove(0);
        proof {
            assert(before.drop_first() =~= views_of_rounds(rest@));
            assert(before[0] == s@);
        }
        let valid = valid_offered_semesters(s.offered_semesters);
        let keep = str_eq(s.state.as_str(), "Godkänt") && (str_eq(
            s.first_period.as_str(),
            "20201P3",
        ) || str_eq(s.first_period.as_str(), "20201P4")) && valid.len() > 0;
        proof {
            assert(keep == keep_round(before[0]));
        }
        if keep {
            let shrunk = CourseRound {
                course_code: s.course_code,
                first_semester: s.first_semester,
                first_period: s.first_period,
                school_code: s.school_code,
                state: s.state,
                offering_id: s.offering_id,
                offered_semesters: valid,
            };
            proof {
                assert(shrunk@ == shrink_round(before[0]));
            }
            result.push(shrunk);
            proof {
                assert(rounds_p3_p4(before) =~= seq![shrink_round(before[0])] + rounds_p3_p4(
                    views_of_rounds(rest@),
                ));
                assert(rounds_p3_p4(orig) =~= views_of_rounds(result@) + rounds_p3_p4(
                    views_of_rounds(rest@),
                ));
            }
        } else {
            proof {
                assert(rounds_p3_p4(before) == rounds_p3_p4(views_of_rounds(rest@)));
            }
        }
    }
    proof {
        assert(views_of_rounds(rest@).len() == 0);
        assert(rounds_p3_p4(views_of_rounds(rest@)) =~= Seq::<RoundView>::empty());
        assert(rounds_p3_p4(orig) =~= views_of_rounds(result@));
    }
    result
}

} // verus!
