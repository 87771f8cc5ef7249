//! Building the absolute URLs and endpoint paths the utilities request.

use vstd::prelude::*;
use vstd::string::StringExecFns;

verus! {

/// The decimal digit character for a value below ten.
pub open spec fn dec_digit(d: int) -> char {
    if d == 0 {
        '0'
    } else if d == 1 {
        '1'
    } else if d == 2 {
        '2'
    } else if d == 3 {
        '3'
    } else if d == 4 {
        '4'
    } else if d == 5 {
        '5'
    } else if d == 6 {
        '6'
    } else if d == 7 {
        '7'
    } else if d == 8 {
        '8'
    } else {
        '9'
    }
}

/// The decimal digits of a non-negative number, most significant first.
pub open spec fn dec_digits(n: int) -> Seq<char>
    decreases n,
{
    if n < 10 {
        seq![dec_digit(n)]
    } else {
        dec_digits(n / 10).push(dec_digit(n % 10))
    }
}

/// The decimal rendering of an integer, with a leading minus sign when it
/// is negative.
pub open spec fn dec_int(n: int) -> Seq<char> {
    if n < 0 {
        seq!['-'] + dec_digits(-n)
    } else {
        dec_digits(n)
    }
}

fn digit_str(d: u32) -> (r: &'static str)
    requires
        d < 10,
    ensures
        r@ == seq![dec_digit(d as int)],
{
    if d == 0 {
        proof {
            reveal_strlit("0");
            assert("0"@ =~= seq![dec_digit(0)]);
        }
        "0"
    } else if d == 1 {
        proof {
            reveal_strlit("1");
            assert("1"@ =~= seq![dec_digit(1)]);
        }
        "1"
    } else if d == 2 {
        proof {
            reveal_strlit("2");
            assert("2"@ =~= seq![dec_digit(2)]);
        }
        "2"
    } else if d == 3 {
        proof {
            reveal_strlit("3");
            assert("3"@ =~= seq![dec_digit(3)]);
        }
        "3"
    } else if d == 4 {
        proof {
            reveal_strlit("4");
            assert("4"@ =~= seq![dec_digit(4)]);
        }
        "4"
    } else if d == 5 {
        proof {
            reveal_strlit("5");
            assert("5"@ =~= seq![dec_digit(5)]);
        }
        "5"
    } else if d == 6 {
        proof {
            reveal_strlit("6");
            assert("6"@ =~= seq![dec_digit(6)]);
        }
        "6"
    } else if d == 7 {
        proof {
            reveal_strlit("7");
            assert("7"@ =~= seq![dec_digit(7)]);
        }
        "7"
    } else if d == 8 {
        proof {
            reveal_strlit("8");
            assert("8"@ =~= seq![dec_digit(8)]);
        }
        "8"
    } else {
        proof {
            reveal_strlit("9");
            assert("9"@ =~= seq![dec_digit(9)]);
        }
        "9"
    }
}

/// The decimal rendering of a non-negative number.
pub fn u32_dec_str(n: u32) -> (r: String)
    ensures
        r@ == dec_digits(n as int),
    decreases n,
{
    if n < 10 {
        digit_str(n).to_owned()
    } else {
        let mut s = u32_dec_str(n / 10);
        s.append(digit_str(n % 10));
        proof {
            assert(s@ =~= dec_digits(n as int));
        }
        s
    }
}

/// The decimal rendering of an integer, minus sign included.
pub fn i32_dec_str(n: i32) -> (r: String)
    ensures
        r@ == dec_int(n as int),
{
    if n >= 0 {
        u32_dec_str(n as u32)
    } else {
        let magnitude = -(n as i64);
        assert(0 < magnitude <= 0x8000_0000);
        let mut s = "-".to_owned();
        s.append(u32_dec_str(magnitude as u32).as_str());
        proof {
            reveal_strlit("-");
            assert("-"@ =~= seq!['-']);
        }
        s
    }
}

/// The string with exactly one slash appended unless it already ends with
/// one.
pub open spec fn with_trailing_slash(s: Seq<char>) -> Seq<char> {
    if s.len() > 0 && s[s.len() - 1] == '/' {
        s
    } else {
        s + seq!['/']
    }
}

/// A service base URL normalized to end with a slash, so a relative path
/// joins under it rather than beside it.
pub fn ensure_trailing_slash(s: &str) -> (r: String)
    ensures
        r@ == with_trailing_slash(s@),
{
    let n = s.unicode_len();
    if n > 0 && s.get_char(n - 1) == '/' {
        s.to_owned()
    } else {
        let mut r = s.to_owned();
        r.append("/");
        proof {
            reveal_strlit("/");
            assert(r@ =~= s@ + seq!['/']);
        }
        r
    }
}

/// What the `url` crate makes of resolving `rel` against `base`, or
/// nothing when `base` does not parse or the resolution fails.
pub uninterp spec fn url_join(base: Seq<char>, rel: Seq<char>) -> Option<Seq<char>>;

/// Relies on url::Url::parse and url::Url::join: both compute from their
/// string arguments alone, and either can fail, in which case there is no
/// joined URL.
#[verifier::external_body]
fn join_url(base: &str, rel: &str) -> (r: Option<String>)
    ensures
        (r is Some) == (url_join(base@, rel@) is Some),
        r is Some ==> r->0@ == url_join(base@, rel@)->0,
{
    match url::Url::parse(base) {
        Ok(u) => match u.join(rel) {
            Ok(joined) => Some(String::from(joined)),
            Err(_) => None,
        },
        Err(_) => None,
    }
}

/// The relative path of the catalog's course-offerings listing for a term.
pub open spec fn offerings_suffix(term: Seq<char>) -> Seq<char> {
    "courses/offerings?from="@ + term + "&skip_coordinator_info=true"@
}

/// The URL listing all course rounds offered from the given term, under
/// the catalog service's base URL; nothing if the base URL is unusable.
pub fn course_offerings_url(kopps_url: &str, term: &str) -> (r: Option<String>)
    ensures
        (r is Some) == (url_join(with_trailing_slash(kopps_url@), offerings_suffix(term@))
            is Some),
        r is Some ==> r->0@ == url_join(
            with_trailing_slash(kopps_url@),
            offerings_suffix(term@),
        )->0,
{
    let base = ensure_trailing_slash(kopps_url);
    let mut suffix = "courses/offerings?from=".to_owned();
    suffix.append(term);
    suffix.append("&skip_coordinator_info=true");
    join_url(base.as_str(), suffix.as_str())
}

/// The relative path of the activity listing for one day.
pub open spec fn activities_suffix(date: Seq<char>) -> Seq<char> {
    "aktivitetstillfallen/students?fromDate="@ + date + "&toDate="@ + date
}

/// The URL listing the activity occasions of one day (the date rendered
/// as the service expects it), under the scheduling service's base URL;
/// nothing if the base URL is unusable.
pub fn aktivitetstillfallen_url(akt_url: &str, date: &str) -> (r: Option<String>)
    ensures
        (r is Some) == (url_join(with_trailing_slash(akt_url@), activities_suffix(date@))
            is Some),
        r is Some ==> r->0@ == url_join(
            with_trailing_slash(akt_url@),
            activities_suffix(date@),
        )->0,
{
    let base = ensure_trailing_slash(akt_url);
    let mut suffix = "aktivitetstillfallen/students?fromDate=".to_owned();
    suffix.append(date);
    suffix.append("&toDate=");
    suffix.append(date);
    join_url(base.as_str(), suffix.as_str())
}

/// The enrollments endpoint of a section addressed by its SIS identifier.
pub fn enrollments_endpoint(sis_section_id: &str) -> (r: String)
    ensures
        r@ == "/sections/sis_section_id:"@ + sis_section_id@ + "/enrollments"@,
{
    let mut r = "/sections/sis_section_id:".to_owned();
    r.append(sis_section_id);
    r.append("/enrollments");
    r
}

/// The course-listing endpoint of an account.
pub fn account_courses_endpoint(account_id: &str) -> (r: String)
    ensures
        r@ == "/accounts/"@ + account_id@ + "/courses"@,
{
    let mut r = "/accounts/".to_owned();
    r.append(account_id);
    r.append("/courses");
    r
}

/// The enrollments endpoint of a course addressed by its numeric id.
pub fn course_enrollments_endpoint(course_id: i32) -> (r: String)
    ensures
        r@ == "/courses/"@ + dec_int(course_id as int) + "/enrollments"@,
{
    let mut r = "/courses/".to_owned();
    r.append(i32_dec_str(course_id).as_str());
    r.append("/enrollments");
    r
}

} // verus!
