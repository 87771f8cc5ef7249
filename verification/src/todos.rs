//! Todo records from the example list endpoint, and the completion filter
//! applied before export.

use vstd::prelude::*;

verus! {

/// One todo item, as the endpoint lists it.
#[derive(Debug, Clone)]
pub struct Todo {
    pub id: i32,
    pub user_id: i32,
    pub title: String,
    pub completed: bool,
}

/// The completion filter the operator's menu choice stands for: the
/// first entry asks for completed todos only, the second for open ones
/// only, and anything further down for all of them.
pub fn completed_choice(selection: usize) -> (r: Option<bool>)
    ensures
        selection == 0 ==> r == Some(true),
        selection == 1 ==> r == Some(false),
        selection > 1 ==> r is None,
{
    if selection == 0 {
        Some(true)
    } else if selection == 1 {
        Some(false)
    } else {
        None
    }
}

/// Whether a todo passes the completion filter: an absent filter admits
/// everything, otherwise the completion flag must match.
pub open spec fn todo_matches(t: Todo, completed_filter: Option<bool>) -> bool {
    match completed_filter {
        None => true,
        Some(is_completed) => t.completed == is_completed,
    }
}

/// The subsequence of todos passing the filter, in their given order.
pub open spec fn todos_matching(s: Seq<Todo>, completed_filter: Option<bool>) -> Seq<Todo>
    decreases s.len(),
{
    if s.len() == 0 {
        Seq::empty()
    } else if todo_matches(s[0], completed_filter) {
        seq![s[0]] + todos_matching(s.drop_first(), completed_filter)
    } else {
        todos_matching(s.drop_first(), completed_filter)
    }
}

/// The todos the operator asked to see: all of them, only the completed
/// ones, or only the ones still open.
pub fn filter_todos(todos: Vec<Todo>, completed_filter: Option<bool>) -> (r: Vec<Todo>)
    ensures
        r@ == todos_matching(todos@, completed_filter),
{
    let ghost orig = todos@;
    let mut rest = todos;
    let mut result: Vec<Todo> = Vec::new();
    while rest.len() > 0
        invariant
            todos_matching(orig, completed_filter) == result@ + todos_matching(
                rest@,
                completed_filter,
            ),
        decreases rest@.len(),
    {
        let ghost before = rest@;
        let t = rest.remove(0);
        proof {
            assert(before.drop_first() =~= rest@);
        }
        let keep = match completed_filter {
            None => true,
            Some(is_completed) => t.completed == is_completed,
        };
        if keep {
            result.push(t);
            proof {
                assert(todos_matching(before, completed_filter) =~= seq![before[0]]
                    + todos_matching(rest@, completed_filter));
                assert(todos_matching(orig, completed_filter) =~= result@ + todos_matching(
                    rest@,
                    completed_filter,
                ));
            }
        } else {
            proof {
                assert(todos_matching(before, completed_filter) == todos_matching(
                    rest@,
                    completed_filter,
                ));
            }
        }
    }
    proof {
        assert(todos_matching(rest@, completed_filter) =~= Seq::<Todo>::empty());
        assert(todos_matching(orig, completed_filter) =~= result@);
    }
    result
}

} // verus!
