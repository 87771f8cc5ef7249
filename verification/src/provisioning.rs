//! Rows of a user-provisioning report, and the checks behind the listing
//! of users that lack a SIS identifier.

use vstd::prelude::*;

verus! {

/// One row of the provisioning report.
#[derive(Debug, Clone)]
pub struct ProvisioningUser {
    pub canvas_user_id: i32,
    pub user_id: Option<String>,
    pub login_id: Option<String>,
    pub email: Option<String>,
    pub created_by_sis: bool,
}

/// Whether a row belongs in the report: the user has a mail address but
/// no SIS identifier.
pub open spec fn spec_needs_report(u: ProvisioningUser) -> bool {
    u.user_id is None && u.email is Some
}

/// Whether a user should be listed as lacking a SIS identifier.
pub fn needs_report(u: &ProvisioningUser) -> (r: bool)
    ensures
        r == spec_needs_report(*u),
{
    u.user_id.is_none() && u.email.is_some()
}

/// How many of the rows carry the given numeric user id.
pub open spec fn count_with_id_of(s: Seq<ProvisioningUser>, id: int) -> nat
    decreases s.len(),
{
    if s.len() == 0 {
        0
    } else {
        (if s[0].canvas_user_id == id {
            1nat
        } else {
            0nat
        }) + count_with_id_of(s.drop_first(), id)
    }
}

/// The number of report rows carrying the given user id: a user appears
/// once per login they hold, and the report states that multiplicity.
pub fn count_with_id(rows: &Vec<ProvisioningUser>, id: i32) -> (r: usize)
    ensures
        r == count_with_id_of(rows@, id as int),
{
    let mut count: usize = 0;
    let mut i: usize = 0;
    proof {
        assert(rows@.skip(0) =~= rows@);
    }
    while i < rows.len()
        invariant
            i <= rows@.len(),
            count <= i,
            count_with_id_of(rows@, id as int) == count + count_with_id_of(
                rows@.skip(i as int),
                id as int,
            ),
        decreases rows@.len() - i,
    {
        proof {
            assert(rows@.skip(i as int).drop_first() =~= rows@.skip(i as int + 1));
            assert(rows@.skip(i as int)[0] == rows@[i as int]);
        }
        if rows[i].canvas_user_id == id {
            count = count + 1;
        }
        i += 1;
    }
    proof {
        assert(count_with_id_of(rows@.skip(i as int), id as int) == 0);
    }
    count
}

} // verus!
