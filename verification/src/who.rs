//! Whose name is asked for.
use vstd::prelude::*;

verus! {

/// A question for a name.
#[derive(Debug)]
pub struct NameQuery {
    pub handle_id: Option<i32>,
    pub is_from_me: bool,
    pub destination_caller_id: Option<String>,
}

/// Who sent a message or a reply: all that is known of the sender counts.
pub fn sender_query(
    handle_id: Option<i32>,
    is_from_me: bool,
    destination_caller_id: Option<String>,
) -> (res: NameQuery)
    ensures
        res.handle_id == handle_id,
        res.is_from_me == is_from_me,
        res.destination_caller_id == destination_caller_id,
{
    NameQuery { handle_id, is_from_me, destination_caller_id }
}

/// Who reacted, for the list of reactions: where the message was sent to does
/// not count.
pub fn tapback_sender_query(handle_id: Option<i32>, is_from_me: bool) -> (res: NameQuery)
    ensures
        res.handle_id == handle_id,
        res.is_from_me == is_from_me,
        res.destination_caller_id == None::<String>,
{
    NameQuery { handle_id, is_from_me, destination_caller_id: None }
}

/// Who reacted, for people to read. Nobody is asked for where the owner of the
/// messages reacted: that name is a setting of the export.
pub fn tapback_contact_query(
    handle_id: Option<i32>,
    is_from_me: bool,
    destination_caller_id: Option<String>,
) -> (res: Option<NameQuery>)
    ensures
        res is None <==> is_from_me,
        res matches Some(query) ==> {
            &&& query.handle_id == handle_id
            &&& !query.is_from_me
            &&& query.destination_caller_id == destination_caller_id
        },
{
    if is_from_me {
        None
    } else {
        Some(NameQuery { handle_id, is_from_me: false, destination_caller_id })
    }
}

/// Who takes part in a conversation.
pub fn participant_query(handle_id: i32) -> (res: NameQuery)
    ensures
        res.handle_id == Some(handle_id),
        !res.is_from_me,
        res.destination_caller_id == None::<String>,
{
    NameQuery { handle_id: Some(handle_id), is_from_me: false, destination_caller_id: None }
}

} // verus!
