//! Command dispatch: the table of registered command names and the output
//! each command renders.
//!
//! A command name is the first whitespace token of a message body that
//! begins with the `!` sigil; a name that is not registered falls through
//! to plain-message handling.

use vstd::prelude::*;
use vstd::utf8::encode_utf8;
use crate::textutils::str_equal;
use crate::textutils::spec_u64_digits;
use crate::textutils::u64_to_string;

verus! {

/// `t` holds `name`.
pub open spec fn table_contains(t: Seq<Seq<char>>, name: Seq<char>) -> bool {
    exists|i: int| 0 <= i < t.len() && t[i] == name
}

/// The registered command names, looked up by the dispatcher.
pub struct CommandTable {
    pub names: Vec<String>,
}

impl View for CommandTable {
    type V = Seq<Seq<char>>;

    open spec fn view(&self) -> Seq<Seq<char>> {
        self.names.deep_view()
    }
}

impl CommandTable {
    /// Decides whether `name` is a registered command name.
    pub fn contains_name(&self, name: &str) -> (r: bool)
        ensures
            r == table_contains(self@, name@),
    {
        let mut i: usize = 0;
        while i < self.names.len()
            invariant
                0 <= i <= self.names.len(),
                forall|j: int| 0 <= j < i ==> self@[j] != name@,
            decreases self.names.len() - i,
        {
            if str_equal(self.names[i].as_str(), name) {
                proof {
                    assert(self@[i as int] == name@);
                }
                return true;
            }
            i = i + 1;
        }
        false
    }
}

/// The commands registered at startup: `!perf` and `!list`.
pub fn get_commands() -> (r: CommandTable)
    ensures
        r@ == seq!["!perf"@, "!list"@],
{
    let mut names: Vec<String> = Vec::new();
    names.push(String::from_str("!perf"));
    names.push(String::from_str("!list"));
    proof {
        assert(names.deep_view() =~~= seq!["!perf"@, "!list"@]);
    }
    CommandTable { names }
}

/// The command that reports the server machine's CPU and memory use.
pub struct PerfCommand;

impl PerfCommand {
    /// Renders the perf report from the CPU usage text and the memory use
    /// in bytes. The probing itself is left to unverified glue, since what
    /// it returns depends on the machine.
    pub fn render(cpu_text: &str, used_bytes: u64, total_bytes: u64) -> (r: Vec<u8>)
        ensures
            r@ == encode_utf8(
                "CPU Usage: "@ + cpu_text@ + "%, RAM Usage: "@ + spec_u64_digits(
                    (used_bytes / 1024 / 1024) as nat,
                ) + "MB/"@ + spec_u64_digits((total_bytes / 1024 / 1024) as nat) + "MB"@,
            ),
    {
        let used_mb: u64 = used_bytes / 1024 / 1024;
        let total_mb: u64 = total_bytes / 1024 / 1024;
        let mut s = String::from_str("CPU Usage: ");
        s.append(cpu_text);
        s.append("%, RAM Usage: ");
        let used_digits = u64_to_string(used_mb);
        s.append(used_digits.as_str());
        s.append("MB/");
        let total_digits = u64_to_string(total_mb);
        s.append(total_digits.as_str());
        s.append("MB");
        proof {
            assert(s@ =~= "CPU Usage: "@ + cpu_text@ + "%, RAM Usage: "@ + spec_u64_digits(
                (used_bytes / 1024 / 1024) as nat,
            ) + "MB/"@ + spec_u64_digits((total_bytes / 1024 / 1024) as nat) + "MB"@);
        }
        s.as_str().as_bytes_vec()
    }
}

/// The user list rendered by the `!list` command: `Users: ` and then each
/// name followed by `, `.
pub open spec fn spec_user_list(names: Seq<Seq<char>>) -> Seq<char>
    decreases names.len(),
{
    if names.len() == 0 {
        Seq::empty()
    } else {
        spec_user_list(names.drop_last()) + names.last() + ", "@
    }
}

/// The command that lists the currently authenticated users.
pub struct ListCommand;

impl ListCommand {
    /// Renders the user list line from the usernames handed in. Reading
    /// the registry is left to the caller, which holds its lock.
    pub fn render(users: &Vec<String>) -> (r: Vec<u8>)
        ensures
            r@ == encode_utf8("Users: "@ + spec_user_list(users.deep_view())),
    {
        let mut s = String::from_str("Users: ");
        let mut i: usize = 0;
        proof {
            assert(users.deep_view().take(0) =~~= Seq::<Seq<char>>::empty());
            assert(s@ =~= "Users: "@ + spec_user_list(users.deep_view().take(0)));
        }
        while i < users.len()
            invariant
                0 <= i <= users.len(),
                s@ == "Users: "@ + spec_user_list(users.deep_view().take(i as int)),
            decreases users.len() - i,
        {
            s.append(users[i].as_str());
            s.append(", ");
            proof {
                let names = users.deep_view();
                assert(names.take(i + 1).drop_last() =~~= names.take(i as int));
                assert(names.take(i + 1).last() == names[i as int]);
                assert(s@ =~= "Users: "@ + spec_user_list(names.take(i + 1)));
            }
            i = i + 1;
        }
        proof {
            assert(users.deep_view().take(users.len() as int) =~~= users.deep_view());
        }
        s.as_str().as_bytes_vec()
    }
}

} // verus!
