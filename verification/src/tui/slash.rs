use vstd::prelude::*;

use crate::agent::events::SlashCommand;
use crate::text::{chars_of, starts_with, starts_with_exec, string_of};
use crate::tui::input::InputBuffer;

verus! {

/// What a key press in the slash menu leads to.
#[derive(Debug)]
pub enum SlashAction {
    NoAction,
    ExecuteCommand(String),
}

pub open spec fn builtin_names() -> Seq<Seq<char>> {
    seq![
        "help"@,
        "quit"@,
        "verbose"@,
        "thinking"@,
        "model"@,
        "history"@,
        "sleep"@,
        "rebuild-embeddings"@,
        "usage"@,
        "settings"@,
        "undo"@,
    ]
}

pub open spec fn builtin_aliases() -> Seq<Seq<Seq<char>>> {
    seq![
        seq!["?"@],
        seq!["q"@],
        seq!["v"@],
        seq!["think"@],
        seq![],
        seq!["h"@],
        seq![],
        seq!["rebuild"@],
        seq!["stats"@],
        seq!["set"@, "config"@],
        seq!["u"@],
    ]
}

pub open spec fn builtin_descriptions() -> Seq<Seq<char>> {
    seq![
        "Show available commands"@,
        "Quit the application"@,
        "Cycle display verbosity"@,
        "Toggle thinking display"@,
        "Show current model"@,
        "Show recent history"@,
        "Put angelica to sleep (dream & recharge)"@,
        "Rebuild episode embeddings with current model"@,
        "Show token usage statistics"@,
        "Open settings panel"@,
        "Undo last message exchange"@,
    ]
}

pub open spec fn string_views(v: Seq<String>) -> Seq<Seq<char>> {
    v.map_values(|s: String| s@)
}

impl SlashCommand {
    /// This is built-in command `i`: its name, aliases and description.
    pub open spec fn is_builtin(self, i: int) -> bool {
        &&& self.name@ == builtin_names()[i]
        &&& string_views(self.aliases@) == builtin_aliases()[i]
        &&& self.description@ == builtin_descriptions()[i]
    }
}

fn command(name: &str, aliases: &[&str], description: &str) -> (r: SlashCommand)
    ensures
        r.name@ == name@,
        string_views(r.aliases@) == aliases@.map_values(|a: &str| a@),
        r.description@ == description@,
{
    let mut v: Vec<String> = Vec::new();
    let mut i: usize = 0;
    while i < aliases.len()
        invariant
            i <= aliases.len(),
            string_views(v@) == aliases@.take(i as int).map_values(|a: &str| a@),
        decreases aliases.len() - i,
    {
        let ghost old_v = v@;
        let a = String::from_str(aliases[i]);
        v.push(a);
        proof {
            assert(string_views(v@) =~= string_views(old_v).push(a@));
            assert(aliases@.take(i + 1) =~= aliases@.take(i as int).push(aliases@[i as int]));
            assert(aliases@.take(i + 1).map_values(|a: &str| a@) =~= aliases@.take(i as int).map_values(
                |a: &str| a@,
            ).push(aliases@[i as int]@));
            assert(string_views(v@) =~= aliases@.take(i + 1).map_values(|a: &str| a@));
        }
        i = i + 1;
    }
    proof {
        assert(aliases@.take(aliases.len() as int) =~= aliases@);
    }
    SlashCommand { name: String::from_str(name), aliases: v, description: String::from_str(description) }
}

/// The slash commands that the front ends offer, in menu order.
pub fn builtin_commands() -> (r: Vec<SlashCommand>)
    ensures
        r.len() == 11,
        forall|i: int| 0 <= i < 11 ==> (#[trigger] r@[i]).is_builtin(i),
{
    let mut r: Vec<SlashCommand> = Vec::new();
    r.push(command("help", &["?"], "Show available commands"));
    r.push(command("quit", &["q"], "Quit the application"));
    r.push(command("verbose", &["v"], "Cycle display verbosity"));
    r.push(command("thinking", &["think"], "Toggle thinking display"));
    r.push(command("model", &[], "Show current model"));
    r.push(command("history", &["h"], "Show recent history"));
    r.push(command("sleep", &[], "Put angelica to sleep (dream & recharge)"));
    r.push(command("rebuild-embeddings", &["rebuild"], "Rebuild episode embeddings with current model"));
    r.push(command("usage", &["stats"], "Show token usage statistics"));
    r.push(command("settings", &["set", "config"], "Open settings panel"));
    r.push(command("undo", &["u"], "Undo last message exchange"));
    proof {
        assert forall|i: int| 0 <= i < 11 implies (#[trigger] r@[i]).is_builtin(i) by {
            assert(string_views(r@[i].aliases@) =~= builtin_aliases()[i]);
        }
    }
    r
}

/// The menu filter for the typed input: what follows the leading `/`
/// (nothing when there is no leading `/`).
pub open spec fn slash_filter(input: Seq<char>) -> Seq<char> {
    if input.len() > 0 && input[0] == '/' {
        input.drop_first()
    } else {
        Seq::empty()
    }
}

/// Command `i` is offered for filter `f`: its name or an alias starts with `f`.
pub open spec fn command_offered(i: int, f: Seq<char>) -> bool {
    starts_with(builtin_names()[i], f) || exists|k: int|
        0 <= k < builtin_aliases()[i].len() && starts_with(#[trigger] builtin_aliases()[i][k], f)
}

/// The offered command indices below `n`, in order.
pub open spec fn offered_upto(n: int, f: Seq<char>) -> Seq<usize>
    decreases n,
{
    if n <= 0 {
        Seq::empty()
    } else if command_offered(n - 1, f) {
        offered_upto(n - 1, f).push((n - 1) as usize)
    } else {
        offered_upto(n - 1, f)
    }
}

/// Slash-menu state: the filter, the selected row and the matching commands.
#[derive(Debug)]
pub struct SlashMenuState {
    pub filter: String,
    pub selected: usize,
    pub matched: Vec<usize>,
}

impl SlashMenuState {
    pub fn new() -> (r: Self)
        ensures
            r.filter@.len() == 0,
            r.selected == 0,
            r.matched@.len() == 0,
    {
        SlashMenuState { filter: String::new(), selected: 0, matched: Vec::new() }
    }

    /// Recomputes the matching commands for `input`; the selection falls
    /// back to the first row when it is past the end.
    pub fn update_matches(&mut self, input: &str)
        ensures
            final(self).filter@ == slash_filter(input@),
            final(self).matched@ == offered_upto(11, slash_filter(input@)),
            final(self).selected == if old(self).selected >= final(self).matched@.len() {
                0
            } else {
                old(self).selected
            },
    {
        let inp = chars_of(input);
        let mut f: Vec<char> = Vec::new();
        if inp.len() > 0 && inp[0] == '/' {
            let mut i: usize = 1;
            while i < inp.len()
                invariant
                    1 <= i <= inp.len(),
                    f@ == inp@.subrange(1, i as int),
                decreases inp.len() - i,
            {
                f.push(inp[i]);
                proof {
                    assert(inp@.subrange(1, i + 1) =~= inp@.subrange(1, i as int).push(inp@[i as int]));
                }
                i = i + 1;
            }
            proof {
                assert(inp@.subrange(1, inp@.len() as int) =~= inp@.drop_first());
            }
        }
        let cmds = builtin_commands();
        let mut matched: Vec<usize> = Vec::new();
        let mut i: usize = 0;
        while i < cmds.len()
            invariant
                cmds.len() == 11,
                forall|j: int| 0 <= j < 11 ==> (#[trigger] cmds@[j]).is_builtin(j),
                i <= 11,
                f@ == slash_filter(input@),
                matched@ == offered_upto(i as int, f@),
            decreases cmds.len() - i,
        {
            let c = &cmds[i];
            assert(c.is_builtin(i as int));
            let name = chars_of(c.name.as_str());
            let mut hit = starts_with_exec(&name, &f);
            let mut k: usize = 0;
            while k < c.aliases.len() && !hit
                invariant
                    0 <= i < 11,
                    c.is_builtin(i as int),
                    k <= c.aliases.len(),
                    hit == (starts_with(builtin_names()[i as int], f@) || exists|m: int|
                        0 <= m < k && starts_with(#[trigger] builtin_aliases()[i as int][m], f@)),
                decreases c.aliases.len() - k,
            {
                let a = chars_of(c.aliases[k].as_str());
                if starts_with_exec(&a, &f) {
                    proof {
                        assert(string_views(c.aliases@)[k as int] == builtin_aliases()[i as int][k as int]);
                    }
                    hit = true;
                }
                proof {
                    if !hit {
                        assert(string_views(c.aliases@)[k as int] == builtin_aliases()[i as int][k as int]);
                    }
                }
                k = k + 1;
            }
            proof {
                assert(hit == command_offered(i as int, f@));
            }
            if hit {
                matched.push(i);
            }
            i = i + 1;
        }
        let n = matched.len();
        let sel = if self.selected >= n { 0 } else { self.selected };
        *self = SlashMenuState { filter: string_of(&f), selected: sel, matched };
    }

    /// The command in the selected row, if any.
    pub fn selected_cmd(&self) -> (r: Option<SlashCommand>)
        ensures
            match r {
                Some(c) => self.selected < self.matched@.len() && self.matched@[self.selected as int] < 11
                    && c.is_builtin(self.matched@[self.selected as int] as int),
                None => !(self.selected < self.matched@.len() && self.matched@[self.selected as int] < 11),
            },
    {
        if self.selected < self.matched.len() {
            let i = self.matched[self.selected];
            let mut cmds = builtin_commands();
            if i < cmds.len() {
                let c = cmds.remove(i);
                return Some(c);
            }
        }
        None
    }
}

impl Default for SlashMenuState {
    fn default() -> (r: Self)
        ensures
            r.filter@.len() == 0,
            r.selected == 0,
            r.matched@.len() == 0,
    {
        SlashMenuState::new()
    }
}

/// A key pressed while the slash menu is open (a character comes without
/// Control or Alt held).
#[derive(Debug, Clone, Copy, PartialEq, Eq, Structural)]
pub enum SlashKey {
    Esc,
    Up,
    Down,
    Tab,
    Enter,
    Backspace,
    Char(char),
    Other,
}

/// Where the terminal goes after a key in the slash menu.
#[derive(Debug, Clone, Copy, PartialEq, Eq, Structural)]
pub enum MenuExit {
    /// The menu stays open.
    Stay,
    /// Back to the conversation (streaming, if a reply is coming in).
    Leave,
    /// Back to the conversation to run a command.
    Run,
}

/// `true` when the typed input no longer opens the menu.
pub open spec fn menu_closed_by(input: Seq<char>) -> bool {
    !(input.len() > 0 && input[0] == '/') || input == seq!['/']
}

impl SlashMenuState {
    /// Handles a key in the slash menu, editing the input line; returns the
    /// command to run, if any, and where the terminal goes.
    pub fn handle_key(&mut self, input: &mut InputBuffer, key: SlashKey) -> (r: (SlashAction, MenuExit))
        requires
            old(input)@.1 < usize::MAX,
        ensures
            key is Esc ==> final(input)@.0.len() == 0 && r.1 == MenuExit::Leave && r.0 is NoAction,
            key is Up ==> final(self).selected == (if old(self).selected > 0 {
                old(self).selected - 1
            } else {
                old(self).selected as int
            }) && final(input)@ == old(input)@ && r.1 == MenuExit::Stay,
            key is Down ==> final(self).selected == (if old(self).selected + 1 < old(self).matched@.len() {
                old(self).selected + 1
            } else {
                old(self).selected as int
            }) && final(input)@ == old(input)@ && r.1 == MenuExit::Stay,
            key is Enter ==> match r.0 {
                SlashAction::ExecuteCommand(name) => r.1 == MenuExit::Run && final(input)@.0.len() == 0
                    && old(self).selected < old(self).matched@.len() && old(self).matched@[old(self).selected as int] < 11
                    && name@ == builtin_names()[old(self).matched@[old(self).selected as int] as int],
                SlashAction::NoAction => r.1 == MenuExit::Stay && final(input)@ == old(input)@ && !(old(self).selected
                    < old(self).matched@.len() && old(self).matched@[old(self).selected as int] < 11),
            },
            key is Backspace ==> r.0 is NoAction && (r.1 == MenuExit::Leave) == menu_closed_by(
                if old(input)@.1 == 0 { old(input)@.0 } else { old(input)@.0.remove(old(input)@.1 - 1) },
            ),
            key is Char ==> r.0 is NoAction && r.1 == MenuExit::Stay && final(self).filter@ == slash_filter(
                final(input)@.0,
            ),
            key is Other ==> r.0 is NoAction && r.1 == MenuExit::Stay && final(input)@ == old(input)@,
    {
        match key {
            SlashKey::Esc => {
                input.clear();
                (SlashAction::NoAction, MenuExit::Leave)
            },
            SlashKey::Up => {
                if self.selected > 0 {
                    self.selected = self.selected - 1;
                }
                (SlashAction::NoAction, MenuExit::Stay)
            },
            SlashKey::Down => {
                if self.selected < self.matched.len() && self.selected + 1 < self.matched.len() {
                    self.selected = self.selected + 1;
                }
                (SlashAction::NoAction, MenuExit::Stay)
            },
            SlashKey::Tab => {
                match self.selected_cmd() {
                    Some(cmd) => {
                        let mut v = chars_of("/");
                        crate::text::append_str(&mut v, cmd.name.as_str());
                        input.set(string_of(&v));
                        self.update_matches(input.as_str());
                    },
                    None => {},
                }
                (SlashAction::NoAction, MenuExit::Stay)
            },
            SlashKey::Enter => {
                match self.selected_cmd() {
                    Some(cmd) => {
                        input.clear();
                        (SlashAction::ExecuteCommand(cmd.name), MenuExit::Run)
                    },
                    None => (SlashAction::NoAction, MenuExit::Stay),
                }
            },
            SlashKey::Backspace => {
                input.backspace();
                self.update_matches(input.as_str());
                let t = chars_of(input.as_str());
                let closed = !(t.len() > 0 && t[0] == '/') || (t.len() == 1 && t[0] == '/');
                proof {
                    if t@.len() == 1 && t@[0] == '/' {
                        assert(t@ =~= seq!['/']);
                    }
                }
                if closed {
                    input.clear();
                    (SlashAction::NoAction, MenuExit::Leave)
                } else {
                    (SlashAction::NoAction, MenuExit::Stay)
                }
            },
            SlashKey::Char(c) => {
                input.insert(c);
                self.update_matches(input.as_str());
                (SlashAction::NoAction, MenuExit::Stay)
            },
            SlashKey::Other => (SlashAction::NoAction, MenuExit::Stay),
        }
    }
}

} // verus!
