//! Laws of the protocol that span components, stated over the spec-level
//! transition function and registry views and proved once and for all.

use vstd::prelude::*;
use vstd::utf8::encode_utf8;
use crate::config::ServerConfigView;
use crate::conn_handler::ActionView;
use crate::conn_handler::ConnStateView;
use crate::conn_handler::ReplyView;
use crate::conn_handler::reject_step;
use crate::conn_handler::step_spec;
use crate::router::spec_route;
use crate::state::UserEntry;
use crate::state::entries_contain_name;
use crate::state::lemma_user_map_facts;
use crate::state::unique_usernames;
use crate::state::user_conns;
use crate::state::user_map;
use crate::textutils::contains_char;
use crate::textutils::first_index_of;
use crate::textutils::has_prefix;
use crate::textutils::has_suffix;
use crate::textutils::is_space;
use crate::textutils::lemma_colon_prefix_pins_recipient;
use crate::textutils::lemma_first_index_of;
use crate::textutils::lemma_trim_head;
use crate::textutils::lemma_trim_window;
use crate::textutils::trim_start_index;
use crate::textutils::spec_outgoing_message;
use crate::textutils::spec_trim;

verus! {

/// A connection at the server-password stage rejects every frame that is
/// neither a disconnect nor a `SERVER_PASS` frame with
/// `SERVER_PASS_REQUIRED`, never advances its state, and asks for no
/// outside work.
pub proof fn lemma_gate_rejects_other_frames(
    frame: Seq<char>,
    cfg: ServerConfigView,
    commands: Seq<Seq<char>>,
    now: int,
)
    requires
        spec_trim(frame) != "DISCONNECT"@,
        !has_prefix(frame, "SERVER_PASS:"@),
    ensures
        step_spec(ConnStateView::AwaitingServerPassword, frame, cfg, commands, now) == reject_step(
            ConnStateView::AwaitingServerPassword,
            ReplyView::ServerPassRequired,
        ),
{
}

/// Connection state is strictly forward-moving: a frame never takes a
/// connection back past the server-password stage, and an authenticated
/// connection keeps its user — there is no in-protocol
/// de-authentication, only disconnect.
pub proof fn lemma_state_forward_moving(
    st: ConnStateView,
    frame: Seq<char>,
    cfg: ServerConfigView,
    commands: Seq<Seq<char>>,
    now: int,
)
    ensures
        ({
            let next = step_spec(st, frame, cfg, commands, now).next;
            match st {
                ConnStateView::AwaitingServerPassword => next
                    == ConnStateView::AwaitingServerPassword || next
                    == ConnStateView::AwaitingAuth,
                ConnStateView::AwaitingAuth => next == ConnStateView::AwaitingAuth
                    || next is Authenticated,
                ConnStateView::Authenticated(u) => next == ConnStateView::Authenticated(u),
            }
        }),
{
}

/// A further `AUTH` frame after a successful authentication is rejected
/// with `ALREADY_AUTHENTICATED`; the state keeps its user and the step
/// asks for no registry change, so the user registry — which binds each
/// username at most once — still holds exactly the one entry it had for
/// that username.
pub proof fn lemma_second_auth_rejected(
    user: Seq<char>,
    frame: Seq<char>,
    cfg: ServerConfigView,
    commands: Seq<Seq<char>>,
    now: int,
    entries: Seq<UserEntry>,
)
    requires
        has_prefix(frame, "AUTH:"@),
        unique_usernames(entries),
        entries_contain_name(entries, user),
    ensures
        step_spec(ConnStateView::Authenticated(user), frame, cfg, commands, now) == reject_step(
            ConnStateView::Authenticated(user),
            ReplyView::AlreadyAuthenticated,
        ),
        user_map(entries).dom().contains(user),
{
    reveal_strlit("AUTH:");
    reveal_strlit("DISCONNECT");
    assert(frame[0] == frame.subrange(0, "AUTH:"@.len() as int)[0]);
    assert(frame[0] == 'A');
    lemma_trim_head(frame);
    assert(spec_trim(frame) != "DISCONNECT"@);
    lemma_user_map_facts(entries);
}

/// An authenticated user's message to the broadcast group is relayed
/// with no reply to the sender; its wire form ends in `:global:<body>`;
/// and the route holds every registered user's connection, one delivery
/// unit each.
pub proof fn lemma_broadcast_reaches_all_users(
    user: Seq<char>,
    body: Seq<char>,
    cfg: ServerConfigView,
    commands: Seq<Seq<char>>,
    now: int,
    entries: Seq<UserEntry>,
)
    requires
        unique_usernames(entries),
        body.len() > 0,
        body[0] != '!',
        encode_utf8("global:"@ + body).len() <= 256,
    ensures
        ({
            let frame = "global:"@ + body;
            let step = step_spec(ConnStateView::Authenticated(user), frame, cfg, commands, now);
            &&& step.reply is None
            &&& step.close == false
            &&& step.next == ConnStateView::Authenticated(user)
            &&& step.action == (ActionView::Relay {
                recipient: "global"@,
                body,
                full_message: spec_outgoing_message(user, "global"@, body, now),
                timestamp: now,
                sender: user,
            })
            &&& has_suffix(spec_outgoing_message(user, "global"@, body, now), ":global:"@ + body)
            &&& forall|i: int|
                0 <= i < entries.len() ==> spec_route(entries, "global"@).contains(
                    (#[trigger] entries[i]).conn,
                )
        }),
{
    let frame = "global:"@ + body;
    reveal_strlit("global:");
    reveal_strlit("global");
    reveal_strlit(":global:");
    reveal_strlit("DISCONNECT");
    reveal_strlit("AUTH:");
    reveal_strlit("GET_MESSAGES:");
    assert(frame[0] == 'g');
    lemma_trim_head(frame);
    assert(spec_trim(frame) != "DISCONNECT"@);
    assert(!has_prefix(frame, "AUTH:"@)) by {
        if has_prefix(frame, "AUTH:"@) {
            assert(frame.subrange(0, 5)[0] == 'A');
        }
    }
    assert(!has_prefix(frame, "GET_MESSAGES:"@)) by {
        if has_prefix(frame, "GET_MESSAGES:"@) {
            assert(frame.subrange(0, 13)[0] == 'G');
        }
    }
    assert(frame[6] == ':');
    assert(contains_char(frame, ':'));
    lemma_first_index_of(frame, ':');
    assert(first_index_of(frame, ':') == 6) by {
        let k = first_index_of(frame, ':');
        assert(frame[0] != ':' && frame[1] != ':' && frame[2] != ':' && frame[3] != ':'
            && frame[4] != ':' && frame[5] != ':');
        if k < 6 {
            assert(frame[k] == ':');
        }
    }
    assert(frame.subrange(0, 6) =~= "global"@);
    assert(frame.skip(7) =~= body);
    let full = spec_outgoing_message(user, "global"@, body, now);
    let x = ":global:"@ + body;
    assert(has_suffix(full, x)) by {
        assert(x.len() <= full.len());
        assert(full.subrange(full.len() - x.len(), full.len() as int) =~= x);
    }
    assert(spec_route(entries, "global"@) == user_conns(entries));
    assert forall|i: int|
        0 <= i < entries.len() implies spec_route(entries, "global"@).contains(
        (#[trigger] entries[i]).conn,
    ) by {
        assert(user_conns(entries)[i] == entries[i].conn);
    }
}

/// A direct message to a recipient with no entry in the user registry
/// draws no error back to the sender, routes to nobody, and still hands
/// the message on for persistence. Recipients spelled like the
/// protocol's own keywords (`AUTH`, `GET_MESSAGES`) are out: a frame
/// naming them is a protocol frame, not a message.
pub proof fn lemma_direct_offline_message(
    user: Seq<char>,
    recipient: Seq<char>,
    body: Seq<char>,
    cfg: ServerConfigView,
    commands: Seq<Seq<char>>,
    now: int,
    entries: Seq<UserEntry>,
)
    requires
        unique_usernames(entries),
        recipient != "global"@,
        recipient != "AUTH"@,
        recipient != "GET_MESSAGES"@,
        !user_map(entries).dom().contains(recipient),
        !contains_char(recipient, ':'),
        body.len() > 0,
        body[0] != '!',
        encode_utf8(recipient + seq![':'] + body).len() <= 256,
    ensures
        ({
            let frame = recipient + seq![':'] + body;
            let step = step_spec(ConnStateView::Authenticated(user), frame, cfg, commands, now);
            &&& step.reply is None
            &&& step.close == false
            &&& step.next == ConnStateView::Authenticated(user)
            &&& step.action == (ActionView::Relay {
                recipient,
                body,
                full_message: spec_outgoing_message(user, recipient, body, now),
                timestamp: now,
                sender: user,
            })
            &&& spec_route(entries, recipient) == Seq::<u64>::empty()
        }),
{
    let frame = recipient + seq![':'] + body;
    let rl = recipient.len() as int;
    reveal_strlit("AUTH:");
    reveal_strlit("AUTH");
    reveal_strlit("GET_MESSAGES:");
    reveal_strlit("GET_MESSAGES");
    reveal_strlit("DISCONNECT");
    assert(frame[rl] == ':');
    assert(!has_prefix(frame, "AUTH:"@)) by {
        if has_prefix(frame, "AUTH:"@) {
            assert(!contains_char("AUTH:"@.drop_last(), ':')) by {
                assert("AUTH:"@.drop_last() =~= "AUTH"@);
                if contains_char("AUTH"@, ':') {
                    let j = choose|j: int| 0 <= j < "AUTH"@.len() && "AUTH"@[j] == ':';
                }
            }
            lemma_colon_prefix_pins_recipient(recipient, body, "AUTH:"@);
            assert("AUTH:"@.drop_last() =~= "AUTH"@);
        }
    }
    assert(!has_prefix(frame, "GET_MESSAGES:"@)) by {
        if has_prefix(frame, "GET_MESSAGES:"@) {
            assert(!contains_char("GET_MESSAGES:"@.drop_last(), ':')) by {
                assert("GET_MESSAGES:"@.drop_last() =~= "GET_MESSAGES"@);
                if contains_char("GET_MESSAGES"@, ':') {
                    let j = choose|j: int|
                        0 <= j < "GET_MESSAGES"@.len() && "GET_MESSAGES"@[j] == ':';
                }
            }
            lemma_colon_prefix_pins_recipient(recipient, body, "GET_MESSAGES:"@);
            assert("GET_MESSAGES:"@.drop_last() =~= "GET_MESSAGES"@);
        }
    }
    assert(spec_trim(frame) != "DISCONNECT"@) by {
        if spec_trim(frame) == "DISCONNECT"@ {
            lemma_trim_window(frame);
            let a = trim_start_index(frame);
            let w = spec_trim(frame).len() as int;
            if rl < a {
                assert(is_space(frame[rl]));
            } else if rl >= a + w {
                assert(is_space(frame[rl]));
            } else {
                assert("DISCONNECT"@[rl - a] == frame.subrange(a, a + w)[rl - a]);
                assert("DISCONNECT"@[rl - a] == ':');
            }
        }
    }
    assert(contains_char(frame, ':'));
    lemma_first_index_of(frame, ':');
    assert(first_index_of(frame, ':') == rl) by {
        let k = first_index_of(frame, ':');
        assert(forall|j: int| 0 <= j < rl ==> frame[j] == recipient[j]);
        assert forall|j: int| 0 <= j < rl implies frame[j] != ':' by {
            if recipient[j] == ':' {
                assert(contains_char(recipient, ':'));
            }
        }
        if k < rl {
            assert(frame[k] == ':');
        }
    }
    assert(frame.subrange(0, rl) =~= recipient);
    assert(frame.skip(rl + 1) =~= body);
}

} // verus!
