//! The message router: decides who receives a relayed message.
//!
//! Broadcast to the reserved group identifier goes to every connection in
//! the user registry; a direct message goes to the one connection
//! registered under the recipient, and to nobody when the recipient is
//! offline or unknown. The router never mutates the registries; the
//! delivery writes themselves are the caller's concern.

use vstd::prelude::*;
use crate::state::UserEntry;
use crate::state::UserRegistry;
use crate::state::user_conns;
use crate::state::user_map;
use crate::textutils::str_equal;

verus! {

/// The delivery targets of a message to `recipient`: every registered
/// connection for the broadcast group `global`, the recipient's one
/// connection when registered, nobody otherwise.
pub open spec fn spec_route(entries: Seq<UserEntry>, recipient: Seq<char>) -> Seq<u64> {
    if recipient == "global"@ {
        user_conns(entries)
    } else if user_map(entries).dom().contains(recipient) {
        seq![user_map(entries)[recipient]]
    } else {
        Seq::empty()
    }
}

/// Decides the delivery targets for a message to `recipient`, one
/// independent delivery per returned connection.
pub fn route_message(users: &UserRegistry, recipient: &str) -> (r: Vec<u64>)
    requires
        users.wf(),
    ensures
        r@ == spec_route(users.entries@, recipient@),
{
    if str_equal(recipient, "global") {
        users.conns()
    } else {
        match users.get(recipient) {
            Some(c) => {
                let mut v: Vec<u64> = Vec::new();
                v.push(c);
                proof {
                    assert(v@ =~= seq![user_map(users.entries@)[recipient@]]);
                }
                v
            },
            None => {
                let v: Vec<u64> = Vec::new();
                proof {
                    assert(v@ =~= Seq::<u64>::empty());
                }
                v
            },
        }
    }
}

} // verus!
