use canvas_api::akt_api::exam_sis_ids;
use canvas_api::enrollments::{
    enrollment_row, enrollments_with_user, published_courses_with_sis, Course, Enrollment, User,
};
use canvas_api::kopps_api::{
    filter_course_rounds, make_sis_id, rounds_in_period, valid_offered_semesters, CourseRound,
    OfferedSemester,
};
use canvas_api::provisioning::{count_with_id, needs_report, ProvisioningUser};
use canvas_api::terms::{term_and_periods, year_term};
use canvas_api::todos::{completed_choice, filter_todos, Todo};

fn semester(code: &str, end_date: &str) -> OfferedSemester {
    OfferedSemester {
        start_date: "2020-01-01".to_string(),
        end_date: end_date.to_string(),
        start_week: "3".to_string(),
        end_week: "23".to_string(),
        semester: code.to_string(),
    }
}

fn round(code: &str, state: &str, period: &str, semesters: Vec<OfferedSemester>) -> CourseRound {
    CourseRound {
        course_code: code.to_string(),
        first_semester: "20201".to_string(),
        first_period: period.to_string(),
        school_code: "A".to_string(),
        state: state.to_string(),
        offering_id: "1".to_string(),
        offered_semesters: semesters,
    }
}

#[test]
fn sis_id_concatenates_code_semester_and_offering() {
    let r = round("SF1624", "Godkänt", "20201P3", vec![]);
    assert_eq!(make_sis_id(&r), "SF1624202011");
}

#[test]
fn valid_semesters_keep_spring_2020_late_endings() {
    let result = valid_offered_semesters(vec![
        semester("20201", "2020-06-01"),
        semester("20201", "2020-03-19"),
        semester("20202", "2020-06-01"),
        semester("20201", "2020-03-20"),
    ]);
    let ends: Vec<&str> = result.iter().map(|s| s.end_date.as_str()).collect();
    assert_eq!(ends, vec!["2020-06-01", "2020-03-20"]);
}

#[test]
fn course_round_filter_keeps_approved_p3_p4_rounds() {
    let keep1 = round("A1", "Godkänt", "20201P3", vec![semester("20201", "2020-06-01")]);
    let wrong_state = round("A2", "Utkast", "20201P3", vec![semester("20201", "2020-06-01")]);
    let wrong_period = round("A3", "Godkänt", "20201P2", vec![semester("20201", "2020-06-01")]);
    let no_valid_sem = round("A4", "Godkänt", "20201P4", vec![semester("20201", "2020-03-01")]);
    let keep2 = round(
        "A5",
        "Godkänt",
        "20201P4",
        vec![semester("20202", "2020-12-01"), semester("20201", "2020-04-01")],
    );
    let result = filter_course_rounds(vec![keep1, wrong_state, wrong_period, no_valid_sem, keep2]);
    let codes: Vec<&str> = result.iter().map(|r| r.course_code.as_str()).collect();
    assert_eq!(codes, vec!["A1", "A5"]);
    // The kept rounds carry only the semesters that count.
    assert_eq!(result[1].offered_semesters.len(), 1);
    assert_eq!(result[1].offered_semesters[0].semester, "20201");
}

#[test]
fn rounds_in_period_matches_exact_label() {
    let a = round("A", "Godkänt", "20202P1", vec![]);
    let b = round("B", "Godkänt", "20202P2", vec![]);
    let c = round("C", "Godkänt", "20202P1", vec![]);
    let result = rounds_in_period(vec![a, b, c], "20202P1");
    let codes: Vec<&str> = result.iter().map(|r| r.course_code.as_str()).collect();
    assert_eq!(codes, vec!["A", "C"]);
}

fn enrollment(
    id: i32,
    sis_user_id: Option<&str>,
    sis_section_id: Option<&str>,
    sortable_name: Option<&str>,
    login_id: Option<&str>,
) -> Enrollment {
    Enrollment {
        id,
        sis_user_id: sis_user_id.map(|s| s.to_string()),
        sis_section_id: sis_section_id.map(|s| s.to_string()),
        role: "StudentEnrollment".to_string(),
        user: User {
            sortable_name: sortable_name.map(|s| s.to_string()),
            login_id: login_id.map(|s| s.to_string()),
        },
    }
}

#[test]
fn enrollment_row_fills_known_fields() {
    let e = enrollment(1, Some("u1abc"), Some("SF1624VT20"), Some("Doe, Jo"), Some("jdoe"));
    let row = enrollment_row("SF1624202011 20201P3", &e);
    assert_eq!(row.course, "SF1624202011 20201P3");
    assert_eq!(row.name, "Doe, Jo");
    assert_eq!(row.role, "StudentEnrollment");
    assert_eq!(row.section, "SF1624VT20");
    assert_eq!(row.mail1, "u1abc@kth.se");
    assert_eq!(row.mail2, "jdoe");
}

#[test]
fn enrollment_row_marks_missing_fields() {
    let e = enrollment(2, None, None, None, None);
    let row = enrollment_row("X", &e);
    assert_eq!(row.name, "??");
    assert_eq!(row.section, "??");
    assert_eq!(row.mail1, "??");
    assert_eq!(row.mail2, "??");
}

#[test]
fn enrollments_without_user_id_are_dropped() {
    let with_id = enrollment(1, Some("u1"), None, None, None);
    let without_id = enrollment(2, None, None, None, None);
    let also_with = enrollment(3, Some("u3"), None, None, None);
    let result = enrollments_with_user(vec![with_id, without_id, also_with]);
    let ids: Vec<i32> = result.iter().map(|e| e.id).collect();
    assert_eq!(ids, vec![1, 3]);
}

#[test]
fn courses_without_sis_id_or_unpublished_are_dropped() {
    let course = |id: i32, sis: Option<&str>, state: &str| Course {
        id,
        sis_course_id: sis.map(|s| s.to_string()),
        workflow_state: state.to_string(),
        name: format!("course {}", id),
    };
    let result = published_courses_with_sis(vec![
        course(1, Some("AKT.a.2022-01-01"), "available"),
        course(2, None, "available"),
        course(3, Some("AKT.b.2022-01-02"), "unpublished"),
        course(4, Some("AKT.c.2022-01-03"), "completed"),
    ]);
    let ids: Vec<i32> = result.iter().map(|c| c.id).collect();
    assert_eq!(ids, vec![1, 4]);
}

#[test]
fn exam_sis_ids_wrap_the_activity_uid() {
    let (plain, funka) = exam_sis_ids("1a2b-3c4d");
    assert_eq!(plain, "AKT.1a2b-3c4d");
    assert_eq!(funka, "AKT.1a2b-3c4d.FUNKA");
}

#[test]
fn term_choices_and_labels() {
    let (term, periods) = term_and_periods(0);
    assert_eq!(term, "1");
    assert_eq!(periods, vec!["P3", "P4", "P5"]);
    let (term, periods) = term_and_periods(1);
    assert_eq!(term, "2");
    assert_eq!(periods, vec!["P0", "P1", "P2"]);
    assert_eq!(year_term("2020", "1"), "20201");
}

fn todo(id: i32, completed: bool) -> Todo {
    Todo {
        id,
        user_id: 1,
        title: "t".to_string(),
        completed,
    }
}

#[test]
fn todo_filter_follows_choice() {
    assert_eq!(completed_choice(0), Some(true));
    assert_eq!(completed_choice(1), Some(false));
    assert_eq!(completed_choice(2), None);

    let all = vec![todo(1, true), todo(2, false), todo(3, true)];
    let completed = filter_todos(all, Some(true));
    let ids: Vec<i32> = completed.iter().map(|t| t.id).collect();
    assert_eq!(ids, vec![1, 3]);

    let all = vec![todo(1, true), todo(2, false), todo(3, true)];
    let open = filter_todos(all, Some(false));
    let ids: Vec<i32> = open.iter().map(|t| t.id).collect();
    assert_eq!(ids, vec![2]);

    let all = vec![todo(1, true), todo(2, false)];
    let everything = filter_todos(all, None);
    assert_eq!(everything.len(), 2);
}

fn user(canvas_user_id: i32, user_id: Option<&str>, email: Option<&str>) -> ProvisioningUser {
    ProvisioningUser {
        canvas_user_id,
        user_id: user_id.map(|s| s.to_string()),
        login_id: None,
        email: email.map(|s| s.to_string()),
        created_by_sis: false,
    }
}

#[test]
fn provisioning_report_membership_and_counts() {
    assert!(needs_report(&user(1, None, Some("a@b.se"))));
    assert!(!needs_report(&user(1, Some("u1"), Some("a@b.se"))));
    assert!(!needs_report(&user(1, None, None)));

    let rows = vec![
        user(7, None, Some("a@b.se")),
        user(8, Some("u8"), None),
        user(7, Some("u7"), Some("c@d.se")),
        user(9, None, None),
    ];
    assert_eq!(count_with_id(&rows, 7), 2);
    assert_eq!(count_with_id(&rows, 8), 1);
    assert_eq!(count_with_id(&rows, 10), 0);
}
