//! The term and period parameters an operator chooses for an export.

use vstd::prelude::*;
use vstd::string::StringExecFns;

verus! {

/// The term code and the periods on offer for a term choice: the first
/// choice is the spring term with periods 3 to 5, the second the fall
/// term with periods 0 to 2.
pub fn term_and_periods(term_selection: usize) -> (r: (String, Vec<String>))
    requires
        term_selection < 2,
    ensures
        r.1@.len() == 3,
        term_selection == 0 ==> r.0@ == "1"@ && r.1@[0]@ == "P3"@ && r.1@[1]@ == "P4"@
            && r.1@[2]@ == "P5"@,
        term_selection == 1 ==> r.0@ == "2"@ && r.1@[0]@ == "P0"@ && r.1@[1]@ == "P1"@
            && r.1@[2]@ == "P2"@,
{
    let mut periods: Vec<String> = Vec::new();
    if term_selection == 0 {
        periods.push("P3".to_owned());
        periods.push("P4".to_owned());
        periods.push("P5".to_owned());
        ("1".to_owned(), periods)
    } else {
        periods.push("P0".to_owned());
        periods.push("P1".to_owned());
        periods.push("P2".to_owned());
        ("2".to_owned(), periods)
    }
}

/// The year-and-term label requests carry, the year run together with the
/// term code.
pub fn year_term(year: &str, term: &str) -> (r: String)
    ensures
        r@ == year@ + term@,
{
    let mut r = year.to_owned();
    r.append(term);
    r
}

} // verus!
