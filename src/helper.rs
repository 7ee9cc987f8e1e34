//! The command line of the privileged helper: the only program allowed to
//! read and change the kernel's tunnel state. The server runs it with one of
//! four commands; the helper runs the matching `wg` command.
use vstd::prelude::*;

use crate::text::views;

verus! {

#[derive(Clone, Debug, PartialEq, Eq)]
pub enum HelperCommand {
    /// Print the live state of all interfaces.
    Show,
    /// Print the configuration of one interface.
    ShowConf { iface: String },
    /// Merge the peer block in the file at `path` into the interface.
    Add { iface: String, path: String },
    /// Remove the peer with this public key from the interface.
    Remove { iface: String, public_key: String },
}

pub enum CommandView {
    Show,
    ShowConf(Seq<char>),
    Add(Seq<char>, Seq<char>),
    Remove(Seq<char>, Seq<char>),
}

impl View for HelperCommand {
    type V = CommandView;

    open spec fn view(&self) -> CommandView {
        match self {
            HelperCommand::Show => CommandView::Show,
            HelperCommand::ShowConf { iface } => CommandView::ShowConf(iface@),
            HelperCommand::Add { iface, path } => CommandView::Add(iface@, path@),
            HelperCommand::Remove { iface, public_key } => CommandView::Remove(
                iface@,
                public_key@,
            ),
        }
    }
}

/// The helper's arguments for a command, after the program name.
pub open spec fn helper_args(c: CommandView) -> Seq<Seq<char>> {
    match c {
        CommandView::Show => seq!["show"@],
        CommandView::ShowConf(iface) => seq!["showconf"@, iface],
        CommandView::Add(iface, path) => seq!["add"@, iface, path],
        CommandView::Remove(iface, key) => seq!["remove"@, iface, key],
    }
}

/// The arguments of the `wg` command that the helper runs for a command.
pub open spec fn wg_args(c: CommandView) -> Seq<Seq<char>> {
    match c {
        CommandView::Show => seq!["show"@],
        CommandView::ShowConf(iface) => seq!["showconf"@, iface],
        CommandView::Add(iface, path) => seq!["addconf"@, iface, path],
        CommandView::Remove(iface, key) => seq!["set"@, iface, "peer"@, key, "remove"@],
    }
}

/// The command that the helper reads from its full argument list (the
/// program name first); unknown commands and missing arguments give `None`.
pub open spec fn parse_args(a: Seq<Seq<char>>) -> Option<CommandView> {
    if a.len() < 2 {
        None
    } else if a[1] == "show"@ {
        Some(CommandView::Show)
    } else if a[1] == "showconf"@ && a.len() >= 3 {
        Some(CommandView::ShowConf(a[2]))
    } else if a[1] == "add"@ && a.len() >= 4 {
        Some(CommandView::Add(a[2], a[3]))
    } else if a[1] == "remove"@ && a.len() >= 4 {
        Some(CommandView::Remove(a[2], a[3]))
    } else {
        None
    }
}

fn strings(parts: &[&str]) -> (r: Vec<String>)
    ensures
        r@.len() == parts@.len(),
        forall|i: int| 0 <= i < parts@.len() ==> (#[trigger] r@[i])@ == parts@[i]@,
{
    let mut r: Vec<String> = Vec::new();
    let mut i: usize = 0;
    while i < parts.len()
        invariant
            i <= parts@.len(),
            r@.len() == i,
            forall|k: int| 0 <= k < i ==> (#[trigger] r@[k])@ == parts@[k]@,
        decreases parts.len() - i,
    {
        r.push(String::from_str(parts[i]));
        i = i + 1;
    }
    r
}

impl HelperCommand {
    /// The helper's arguments for this command, after the program name.
    pub fn to_args(&self) -> (r: Vec<String>)
        ensures
            views(r@) == helper_args(self@),
    {
        let r = match self {
            HelperCommand::Show => strings(&["show"]),
            HelperCommand::ShowConf { iface } => strings(&["showconf", iface.as_str()]),
            HelperCommand::Add { iface, path } => strings(&["add", iface.as_str(), path.as_str()]),
            HelperCommand::Remove { iface, public_key } => strings(
                &["remove", iface.as_str(), public_key.as_str()],
            ),
        };
        assert(views(r@) =~= helper_args(self@));
        r
    }

    /// The arguments of the `wg` command that carries out this command.
    pub fn wg_args(&self) -> (r: Vec<String>)
        ensures
            views(r@) == wg_args(self@),
    {
        let r = match self {
            HelperCommand::Show => strings(&["show"]),
            HelperCommand::ShowConf { iface } => strings(&["showconf", iface.as_str()]),
            HelperCommand::Add { iface, path } => strings(
                &["addconf", iface.as_str(), path.as_str()],
            ),
            HelperCommand::Remove { iface, public_key } => strings(
                &["set", iface.as_str(), "peer", public_key.as_str(), "remove"],
            ),
        };
        assert(views(r@) =~= wg_args(self@));
        r
    }

    /// Reads the command from the helper's full argument list.
    pub fn from_args(args: &Vec<String>) -> (r: Option<HelperCommand>)
        ensures
            match r {
                Some(c) => parse_args(views(args@)) == Some(c@),
                None => parse_args(views(args@)) is None,
            },
    {
        let ghost a = views(args@);
        if args.len() < 2 {
            return None;
        }
        assert(a[1] == args@[1]@);
        let cmd = args[1].as_str();
        if crate::text::same_text(cmd, "show") {
            Some(HelperCommand::Show)
        } else if crate::text::same_text(cmd, "showconf") && args.len() >= 3 {
            assert(a[2] == args@[2]@);
            Some(HelperCommand::ShowConf { iface: args[2].clone() })
        } else if crate::text::same_text(cmd, "add") && args.len() >= 4 {
            assert(a[2] == args@[2]@);
            assert(a[3] == args@[3]@);
            Some(HelperCommand::Add { iface: args[2].clone(), path: args[3].clone() })
        } else if crate::text::same_text(cmd, "remove") && args.len() >= 4 {
            assert(a[2] == args@[2]@);
            assert(a[3] == args@[3]@);
            Some(HelperCommand::Remove { iface: args[2].clone(), public_key: args[3].clone() })
        } else {
            None
        }
    }
}

/// The helper reads back every command that the server sends it, whatever
/// the program name in front.
pub proof fn lemma_helper_args_round_trip(program: Seq<char>, c: CommandView)
    ensures
        parse_args(seq![program] + helper_args(c)) == Some(c),
{
    reveal_strlit("show");
    reveal_strlit("showconf");
    reveal_strlit("add");
    reveal_strlit("remove");
    assert("show"@.len() != "showconf"@.len());
    assert("show"@ != "add"@);
    assert("show"@ != "remove"@);
    assert("showconf"@ != "add"@);
    assert("showconf"@ != "remove"@);
    assert("add"@.len() != "remove"@.len());
    let a = seq![program] + helper_args(c);
    match c {
        CommandView::Show => {
            assert(a[1] == "show"@);
        },
        CommandView::ShowConf(iface) => {
            assert(a[1] == "showconf"@ && a[2] == iface);
        },
        CommandView::Add(iface, path) => {
            assert(a[1] == "add"@ && a[2] == iface && a[3] == path);
        },
        CommandView::Remove(iface, key) => {
            assert(a[1] == "remove"@ && a[2] == iface && a[3] == key);
        },
    }
}

} // verus!
