//! Dispatch decision: what the consumer does with one update. A
//! synthetic update (id zero) calls for the scheduled delivery; a live
//! group message whose text is exactly the subscribe command calls for
//! the subscribe side-effect; everything else is ignored. Performing the
//! chosen action — sending, replying, persisting — is the caller's
//! business.

use vstd::prelude::*;
use vstd::string::StringExecFns;

verus! {

/// The action the dispatcher performs for one update.
#[derive(Debug, Clone, Copy, PartialEq, Eq, Structural)]
pub enum Action {
    /// Deliver the scheduled content to this chat.
    DeliverScheduled { chat_id: i64 },
    /// Add this chat to the subscriber store and acknowledge.
    Subscribe { chat_id: i64 },
    /// Nothing to do.
    Ignore,
}

/// The one text command the dispatcher knows.
pub open spec fn subscribe_command() -> Seq<char> {
    "/subscribe @yinchabot"@
}

/// Decide the action for one update: synthetic updates (id zero) get the
/// scheduled delivery; a group message whose text is exactly the
/// subscribe command gets the subscribe action; anything else is ignored.
pub fn decide(update_id: i32, chat_id: i64, is_group: bool, text: &String) -> (a: Action)
    ensures
        update_id == 0 ==> a == (Action::DeliverScheduled { chat_id }),
        update_id != 0 && is_group && text@ == subscribe_command() ==> a == (Action::Subscribe {
            chat_id,
        }),
        update_id != 0 && !(is_group && text@ == subscribe_command()) ==> a == Action::Ignore,
{
    if update_id == 0 {
        Action::DeliverScheduled { chat_id }
    } else {
        let command = String::from_str("/subscribe @yinchabot");
        if is_group && text.eq(&command) {
            Action::Subscribe { chat_id }
        } else {
            Action::Ignore
        }
    }
}

} // verus!
