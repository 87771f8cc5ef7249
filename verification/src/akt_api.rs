//! Activity-occasion records from the activity-scheduling service, and
//! the SIS identifiers the exam-room exports derive from them.

use vstd::prelude::*;
use vstd::string::StringExecFns;

verus! {

/// The body of one listing response: the day's activity occasions.
#[derive(Debug, Clone)]
pub struct Response {
    pub aktivitetstillfallen: Vec<Aktivitetstillfalle>,
}

/// One activity occasion, named by its registry identifier.
#[derive(Debug, Clone)]
pub struct Aktivitetstillfalle {
    pub ladok_uid: String,
}

/// The two exam-room SIS identifiers of an activity occasion: the plain
/// room and the room for students with adapted examination arrangements.
pub fn exam_sis_ids(ladok_uid: &str) -> (r: (String, String))
    ensures
        r.0@ == "AKT."@ + ladok_uid@,
        r.1@ == "AKT."@ + ladok_uid@ + ".FUNKA"@,
{
    let mut plain = "AKT.".to_owned();
    plain.append(ladok_uid);
    let mut funka = plain.clone();
    funka.append(".FUNKA");
    (plain, funka)
}

} // verus!
