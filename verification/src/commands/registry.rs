//! Command registry for keyboard shortcuts and the command palette.

use vstd::prelude::*;
use crate::text::{chars_of, seq_contains, str_eq, to_lower, lowercase, occurs_in};

verus! {

/// Command categories.
#[derive(Debug, Clone, Copy, PartialEq, Eq, Structural)]
pub enum CommandCategory {
    File,
    Edit,
    View,
    Transport,
    Track,
    Mix,
    Tools,
    Help,
}

/// The display name of a category.
pub open spec fn category_name(c: CommandCategory) -> Seq<char> {
    match c {
        CommandCategory::File => "File"@,
        CommandCategory::Edit => "Edit"@,
        CommandCategory::View => "View"@,
        CommandCategory::Transport => "Transport"@,
        CommandCategory::Track => "Track"@,
        CommandCategory::Mix => "Mix"@,
        CommandCategory::Tools => "Tools"@,
        CommandCategory::Help => "Help"@,
    }
}

impl CommandCategory {
    /// Display name of the category.
    pub fn display_name(&self) -> (s: &'static str)
        ensures
            s@ == category_name(*self),
    {
        match self {
            CommandCategory::File => "File",
            CommandCategory::Edit => "Edit",
            CommandCategory::View => "View",
            CommandCategory::Transport => "Transport",
            CommandCategory::Track => "Track",
            CommandCategory::Mix => "Mix",
            CommandCategory::Tools => "Tools",
            CommandCategory::Help => "Help",
        }
    }
}

/// Information about a registered command.
#[derive(Debug, Clone)]
pub struct CommandInfo {
    /// Unique command ID
    pub id: String,
    /// Display name
    pub name: String,
    /// Description
    pub description: String,
    /// Category for grouping
    pub category: CommandCategory,
    /// Keyboard shortcut (if any)
    pub shortcut: Option<String>,
}

/// The mathematical value of a command's information.
pub struct CommandInfoView {
    pub id: Seq<char>,
    pub name: Seq<char>,
    pub description: Seq<char>,
    pub category: CommandCategory,
    pub shortcut: Option<Seq<char>>,
}

impl View for CommandInfo {
    type V = CommandInfoView;

    open spec fn view(&self) -> CommandInfoView {
        CommandInfoView {
            id: self.id@,
            name: self.name@,
            description: self.description@,
            category: self.category,
            shortcut: match self.shortcut {
                Some(s) => Some(s@),
                None => None,
            },
        }
    }
}

/// The view of a command with a shortcut.
pub open spec fn info_view(
    id: Seq<char>,
    name: Seq<char>,
    description: Seq<char>,
    category: CommandCategory,
    shortcut: Seq<char>,
) -> CommandInfoView {
    CommandInfoView { id, name, description, category, shortcut: Some(shortcut) }
}

impl CommandInfo {
    /// An exact copy.
    pub fn duplicate(&self) -> (c: CommandInfo)
        ensures
            c@ == self@,
    {
        CommandInfo {
            id: self.id.clone(),
            name: self.name.clone(),
            description: self.description.clone(),
            category: self.category,
            shortcut: match &self.shortcut {
                Some(t) => Some(t.clone()),
                None => None,
            },
        }
    }

    /// Information for a command with a shortcut.
    pub fn new(
        id: &str,
        name: &str,
        description: &str,
        category: CommandCategory,
        shortcut: &str,
    ) -> (c: CommandInfo)
        ensures
            c@ == info_view(id@, name@, description@, category, shortcut@),
    {
        CommandInfo {
            id: String::from_str(id),
            name: String::from_str(name),
            description: String::from_str(description),
            category,
            shortcut: Some(String::from_str(shortcut)),
        }
    }
}

/// The commands a new registry holds.
pub open spec fn default_commands() -> Seq<CommandInfoView> {
    seq![
        info_view("file.new"@, "New Project"@, "Create a new project"@, CommandCategory::File, "Ctrl+N"@),
        info_view("file.open"@, "Open Project"@, "Open an existing project"@, CommandCategory::File, "Ctrl+O"@),
        info_view("file.save"@, "Save"@, "Save the current project"@, CommandCategory::File, "Ctrl+S"@),
        info_view("file.save_as"@, "Save As..."@, "Save the project with a new name"@, CommandCategory::File, "Ctrl+Shift+S"@),
        info_view("edit.undo"@, "Undo"@, "Undo the last action"@, CommandCategory::Edit, "Ctrl+Z"@),
        info_view("edit.redo"@, "Redo"@, "Redo the last undone action"@, CommandCategory::Edit, "Ctrl+Shift+Z"@),
        info_view("transport.play"@, "Play/Pause"@, "Toggle playback"@, CommandCategory::Transport, "Space"@),
        info_view("transport.stop"@, "Stop"@, "Stop playback and return to start"@, CommandCategory::Transport, "Enter"@),
        info_view("transport.record"@, "Record"@, "Start/stop recording"@, CommandCategory::Transport, "R"@),
        info_view("view.command_palette"@, "Command Palette"@, "Open command palette"@, CommandCategory::View, "Ctrl+Shift+P"@),
        info_view("view.toggle_left_panel"@, "Toggle Left Panel"@, "Show/hide left panel"@, CommandCategory::View, "Ctrl+B"@),
    ]
}

/// The default commands have distinct identifiers.
pub proof fn lemma_default_ids_distinct()
    ensures
        info_ids(default_commands()).no_duplicates(),
{
    reveal_strlit("file.new");
    reveal_strlit("file.open");
    reveal_strlit("file.save");
    reveal_strlit("file.save_as");
    reveal_strlit("edit.undo");
    reveal_strlit("edit.redo");
    reveal_strlit("transport.play");
    reveal_strlit("transport.stop");
    reveal_strlit("transport.record");
    reveal_strlit("view.command_palette");
    reveal_strlit("view.toggle_left_panel");
    let ids = info_ids(default_commands());
    assert(ids =~= seq!["file.new"@, "file.open"@, "file.save"@, "file.save_as"@, "edit.undo"@, "edit.redo"@, "transport.play"@, "transport.stop"@, "transport.record"@, "view.command_palette"@, "view.toggle_left_panel"@]);
    assert("file.new"@.len() == 8);
    assert("file.open"@.len() == 9);
    assert("file.save"@.len() == 9);
    assert("file.save_as"@.len() == 12);
    assert("edit.undo"@.len() == 9);
    assert("edit.redo"@.len() == 9);
    assert("transport.play"@.len() == 14);
    assert("transport.stop"@.len() == 14);
    assert("transport.record"@.len() == 16);
    assert("view.command_palette"@.len() == 20);
    assert("view.toggle_left_panel"@.len() == 22);
    assert("file.open"@[5] != "file.save"@[5]);
    assert("file.open"@[0] != "edit.undo"@[0]);
    assert("file.open"@[0] != "edit.redo"@[0]);
    assert("file.save"@[0] != "edit.undo"@[0]);
    assert("file.save"@[0] != "edit.redo"@[0]);
    assert("edit.undo"@[5] != "edit.redo"@[5]);
    assert("transport.play"@[10] != "transport.stop"@[10]);
}

/// Replacing a command by one with the same identifier keeps the
/// identifiers distinct.
pub proof fn lemma_update_same_id(s: Seq<CommandInfoView>, i: int, x: CommandInfoView)
    requires
        0 <= i < s.len(),
        s[i].id == x.id,
        info_ids(s).no_duplicates(),
    ensures
        info_ids(s.update(i, x)).no_duplicates(),
{
    assert(info_ids(s.update(i, x)) =~= info_ids(s));
}

/// Adding a command under a new identifier keeps the identifiers
/// distinct.
pub proof fn lemma_push_new_id(s: Seq<CommandInfoView>, x: CommandInfoView)
    requires
        index_of_id(s, x.id) is None,
        info_ids(s).no_duplicates(),
    ensures
        info_ids(s.push(x)).no_duplicates(),
{
    let ids = info_ids(s);
    assert(info_ids(s.push(x)) =~= ids.push(x.id));
    assert forall|a: int, b: int| 0 <= a < ids.len() + 1 && 0 <= b < ids.len() + 1 && a != b implies ids.push(x.id)[a] != ids.push(x.id)[b] by {
        if a < ids.len() && b < ids.len() {
        } else if a == ids.len() {
            assert(s[b].id != x.id);
        } else {
            assert(s[a].id != x.id);
        }
    }
}

/// The index of the first command with identifier `id`, if any.
pub open spec fn index_of_id(cmds: Seq<CommandInfoView>, id: Seq<char>) -> Option<int> {
    if exists|i: int| 0 <= i < cmds.len() && cmds[i].id == id {
        Some(choose|i: int| 0 <= i < cmds.len() && cmds[i].id == id && forall|j: int| 0 <= j < i ==> cmds[j].id != id)
    } else {
        None
    }
}

/// Whether a command matches a lower-cased query: the query occurs in its
/// lower-cased name, description or identifier.
pub open spec fn search_match(c: CommandInfoView, query: Seq<char>) -> bool {
    ||| occurs_in(lowercase(c.name), query)
    ||| occurs_in(lowercase(c.description), query)
    ||| occurs_in(lowercase(c.id), query)
}

/// Registry of available commands, in the order of registration; an
/// identifier is registered at most once.
pub struct CommandRegistry {
    commands: Vec<CommandInfo>,
}

impl View for CommandRegistry {
    type V = Seq<CommandInfoView>;

    closed spec fn view(&self) -> Seq<CommandInfoView> {
        self.commands@.map_values(|c: CommandInfo| c@)
    }
}

/// The identifiers of commands, in order.
pub open spec fn info_ids(s: Seq<CommandInfoView>) -> Seq<Seq<char>> {
    s.map_values(|c: CommandInfoView| c.id)
}

/// Keeping some commands keeps their identifiers distinct, and keeps
/// only commands that were there.
pub proof fn lemma_filter_keeps_ids_distinct(s: Seq<CommandInfoView>, pred: spec_fn(CommandInfoView) -> bool)
    requires
        info_ids(s).no_duplicates(),
    ensures
        info_ids(s.filter(pred)).no_duplicates(),
        forall|x: CommandInfoView| #[trigger] s.filter(pred).contains(x) ==> s.contains(x),
    decreases s.len(),
{
    reveal_with_fuel(Seq::<_>::filter, 1);
    if s.len() > 0 {
        let rest = s.drop_last();
        assert(info_ids(rest).no_duplicates()) by {
            assert forall|i: int, j: int| 0 <= i < rest.len() && 0 <= j < rest.len() && i != j implies info_ids(rest)[i] != info_ids(rest)[j] by {
                assert(info_ids(rest)[i] == info_ids(s)[i]);
                assert(info_ids(rest)[j] == info_ids(s)[j]);
            }
        }
        lemma_filter_keeps_ids_distinct(rest, pred);
        let fr = rest.filter(pred);
        assert forall|x: CommandInfoView| fr.contains(x) implies s.contains(x) by {
            let k = choose|k: int| 0 <= k < rest.len() && rest[k] == x;
            assert(s[k] == x);
        }
        if pred(s.last()) {
            let f = fr.push(s.last());
            assert(s.filter(pred) == f);
            assert forall|i: int| 0 <= i < fr.len() implies info_ids(fr)[i] != s.last().id by {
                assert(fr.contains(fr[i]));
                let k = choose|k: int| 0 <= k < rest.len() && rest[k] == fr[i];
                assert(info_ids(s)[k] == fr[i].id);
                assert(info_ids(s)[s.len() - 1] == s.last().id);
            }
            assert forall|i: int, j: int| 0 <= i < f.len() && 0 <= j < f.len() && i != j implies info_ids(f)[i] != info_ids(f)[j] by {
                if i < fr.len() && j < fr.len() {
                    assert(info_ids(f)[i] == info_ids(fr)[i]);
                    assert(info_ids(f)[j] == info_ids(fr)[j]);
                } else if i == fr.len() {
                    assert(info_ids(f)[j] == info_ids(fr)[j]);
                } else {
                    assert(info_ids(f)[i] == info_ids(fr)[i]);
                }
            }
            assert forall|x: CommandInfoView| f.contains(x) implies s.contains(x) by {
                let k = choose|k: int| 0 <= k < f.len() && f[k] == x;
                if k < fr.len() {
                    assert(fr.contains(x));
                } else {
                    assert(s[s.len() - 1] == x);
                }
            }
        } else {
            assert(s.filter(pred) == fr);
        }
    }
}

impl CommandRegistry {
    /// No identifier is registered twice.
    #[verifier::type_invariant]
    spec fn ids_distinct(&self) -> bool {
        info_ids(self.commands@.map_values(|c: CommandInfo| c@)).no_duplicates()
    }

    /// A registry holding the default commands.
    pub fn new() -> (r: CommandRegistry)
        ensures
            r@ == default_commands(),
    {
        let mut v: Vec<CommandInfo> = Vec::new();
        v.push(CommandInfo::new("file.new", "New Project", "Create a new project", CommandCategory::File, "Ctrl+N"));
        v.push(CommandInfo::new("file.open", "Open Project", "Open an existing project", CommandCategory::File, "Ctrl+O"));
        v.push(CommandInfo::new("file.save", "Save", "Save the current project", CommandCategory::File, "Ctrl+S"));
        v.push(CommandInfo::new("file.save_as", "Save As...", "Save the project with a new name", CommandCategory::File, "Ctrl+Shift+S"));
        v.push(CommandInfo::new("edit.undo", "Undo", "Undo the last action", CommandCategory::Edit, "Ctrl+Z"));
        v.push(CommandInfo::new("edit.redo", "Redo", "Redo the last undone action", CommandCategory::Edit, "Ctrl+Shift+Z"));
        v.push(CommandInfo::new("transport.play", "Play/Pause", "Toggle playback", CommandCategory::Transport, "Space"));
        v.push(CommandInfo::new("transport.stop", "Stop", "Stop playback and return to start", CommandCategory::Transport, "Enter"));
        v.push(CommandInfo::new("transport.record", "Record", "Start/stop recording", CommandCategory::Transport, "R"));
        v.push(CommandInfo::new("view.command_palette", "Command Palette", "Open command palette", CommandCategory::View, "Ctrl+Shift+P"));
        v.push(CommandInfo::new("view.toggle_left_panel", "Toggle Left Panel", "Show/hide left panel", CommandCategory::View, "Ctrl+B"));
        proof {
            assert(v@.map_values(|c: CommandInfo| c@) =~= default_commands());
            lemma_default_ids_distinct();
        }
        let r = CommandRegistry { commands: v };
        r
    }

    /// A copy of the registered commands.
    fn copy_commands(&self) -> (list: Vec<CommandInfo>)
        ensures
            list@.map_values(|c: CommandInfo| c@) == self@,
    {
        let mut list: Vec<CommandInfo> = Vec::new();
        let mut k: usize = 0;
        while k < self.commands.len()
            invariant
                k <= self.commands@.len(),
                list@.len() == k,
                forall|j: int| 0 <= j < k ==> (#[trigger] list@[j])@ == self.commands@[j]@,
            decreases self.commands@.len() - k,
        {
            list.push(self.commands[k].duplicate());
            k = k + 1;
        }
        assert(list@.map_values(|c: CommandInfo| c@) =~= self@);
        list
    }

    /// Find the first command with the given identifier.
    fn find(&self, id: &str) -> (r: Option<usize>)
        ensures
            match r {
                Some(i) => i < self@.len() && index_of_id(self@, id@) == Some(i as int) && self@[i as int].id == id@,
                None => index_of_id(self@, id@) is None,
            },
    {
        let mut i: usize = 0;
        while i < self.commands.len()
            invariant
                i <= self@.len(),
                self@.len() == self.commands@.len(),
                forall|j: int| 0 <= j < i ==> self@[j].id != id@,
            decreases self@.len() - i,
        {
            if str_eq(self.commands[i].id.as_str(), id) {
                proof {
                    assert(self@[i as int].id == id@);
                    let k = choose|k: int|
                        0 <= k < self@.len() && self@[k].id == id@ && forall|j: int|
                            0 <= j < k ==> self@[j].id != id@;
                    assert(k == i as int) by {
                        if k > i {
                            assert(self@[i as int].id == id@);
                        }
                    }
                }
                return Some(i);
            }
            i = i + 1;
        }
        None
    }

    /// Register a command; one with the same identifier is replaced.
    pub fn register(&mut self, info: CommandInfo)
        ensures
            final(self)@ == match index_of_id(old(self)@, info@.id) {
                Some(i) => old(self)@.update(i, info@),
                None => old(self)@.push(info@),
            },
    {
        proof {
            use_type_invariant(&*self);
        }
        let ghost iv = info@;
        let ghost before = self@;
        let mut list = self.copy_commands();
        match self.find(info.id.as_str()) {
            Some(i) => {
                proof {
                    lemma_update_same_id(before, i as int, iv);
                }
                list.set(i, info);
                proof {
                    assert(list@.map_values(|c: CommandInfo| c@) =~= before.update(i as int, iv));
                }
                self.commands = list;
            },
            None => {
                proof {
                    lemma_push_new_id(before, iv);
                }
                list.push(info);
                proof {
                    assert(list@.map_values(|c: CommandInfo| c@) =~= before.push(iv));
                }
                self.commands = list;
            },
        }
    }

    /// Get command by ID.
    pub fn get(&self, id: &str) -> (r: Option<&CommandInfo>)
        ensures
            match index_of_id(self@, id@) {
                Some(i) => r is Some && r->0@ == self@[i],
                None => r is None,
            },
    {
        match self.find(id) {
            Some(i) => Some(&self.commands[i]),
            None => None,
        }
    }

    /// Get all commands.
    pub fn all(&self) -> (r: Vec<&CommandInfo>)
        ensures
            r@.map_values(|c: &CommandInfo| c@) == self@,
            info_ids(self@).no_duplicates(),
    {
        proof {
            use_type_invariant(self);
        }
        let mut out: Vec<&CommandInfo> = Vec::new();
        let mut i: usize = 0;
        while i < self.commands.len()
            invariant
                i <= self.commands@.len(),
                self@.len() == self.commands@.len(),
                out@.map_values(|c: &CommandInfo| c@) == self@.subrange(0, i as int),
            decreases self.commands@.len() - i,
        {
            let ghost old_out = out@;
            out.push(&self.commands[i]);
            proof {
                assert(out@.map_values(|c: &CommandInfo| c@) =~= old_out.map_values(
                    |c: &CommandInfo| c@,
                ).push(self@[i as int]));
                assert(self@.subrange(0, i + 1) =~= self@.subrange(0, i as int).push(self@[i as int]));
            }
            i = i + 1;
        }
        proof {
            assert(self@.subrange(0, self@.len() as int) =~= self@);
        }
        out
    }

    /// Get commands by category.
    pub fn by_category(&self, category: CommandCategory) -> (r: Vec<&CommandInfo>)
        ensures
            r@.map_values(|c: &CommandInfo| c@) == self@.filter(
                |c: CommandInfoView| c.category == category,
            ),
            info_ids(r@.map_values(|c: &CommandInfo| c@)).no_duplicates(),
    {
        proof {
            use_type_invariant(self);
            lemma_filter_keeps_ids_distinct(self@, |c: CommandInfoView| c.category == category);
        }
        let ghost pred = |c: CommandInfoView| c.category == category;
        let mut out: Vec<&CommandInfo> = Vec::new();
        let mut i: usize = 0;
        while i < self.commands.len()
            invariant
                i <= self.commands@.len(),
                self@.len() == self.commands@.len(),
                pred == (|c: CommandInfoView| c.category == category),
                out@.map_values(|c: &CommandInfo| c@) == self@.subrange(0, i as int).filter(pred),
            decreases self.commands@.len() - i,
        {
            let ghost prefix = self@.subrange(0, i as int);
            proof {
                assert(self@.subrange(0, i + 1) =~= prefix.push(self@[i as int]));
                reveal_with_fuel(Seq::<_>::filter, 2);
                assert(prefix.push(self@[i as int]).drop_last() =~= prefix);
            }
            if self.commands[i].category == category {
                let ghost old_out = out@;
                out.push(&self.commands[i]);
                proof {
                    assert(out@.map_values(|c: &CommandInfo| c@) =~= old_out.map_values(
                        |c: &CommandInfo| c@,
                    ).push(self@[i as int]));
                }
            }
            i = i + 1;
        }
        proof {
            assert(self@.subrange(0, self@.len() as int) =~= self@);
        }
        out
    }

    /// Whether the command at `i` matches the lower-cased query `q`.
    fn matches_at(&self, i: usize, q: &Vec<char>) -> (b: bool)
        requires
            i < self@.len(),
        ensures
            b == search_match(self@[i as int], q@),
    {
        let c = &self.commands[i];
        let name = to_lower(c.name.as_str());
        if seq_contains(&chars_of(name.as_str()), q) {
            return true;
        }
        let description = to_lower(c.description.as_str());
        if seq_contains(&chars_of(description.as_str()), q) {
            return true;
        }
        let id = to_lower(c.id.as_str());
        seq_contains(&chars_of(id.as_str()), q)
    }

    /// Search commands by name, description or identifier, ignoring case.
    pub fn search(&self, query: &str) -> (r: Vec<&CommandInfo>)
        ensures
            r@.map_values(|c: &CommandInfo| c@) == self@.filter(
                |c: CommandInfoView| search_match(c, lowercase(query@)),
            ),
            info_ids(r@.map_values(|c: &CommandInfo| c@)).no_duplicates(),
    {
        proof {
            use_type_invariant(self);
            lemma_filter_keeps_ids_distinct(self@, |c: CommandInfoView| search_match(c, lowercase(query@)));
        }
        let lowered = to_lower(query);
        let q = chars_of(lowered.as_str());
        let ghost pred = |c: CommandInfoView| search_match(c, lowercase(query@));
        let mut out: Vec<&CommandInfo> = Vec::new();
        let mut i: usize = 0;
        while i < self.commands.len()
            invariant
                i <= self.commands@.len(),
                self@.len() == self.commands@.len(),
                q@ == lowercase(query@),
                pred == (|c: CommandInfoView| search_match(c, lowercase(query@))),
                out@.map_values(|c: &CommandInfo| c@) == self@.subrange(0, i as int).filter(pred),
            decreases self.commands@.len() - i,
        {
            let ghost prefix = self@.subrange(0, i as int);
            proof {
                assert(self@.subrange(0, i + 1) =~= prefix.push(self@[i as int]));
                reveal_with_fuel(Seq::<_>::filter, 2);
                assert(prefix.push(self@[i as int]).drop_last() =~= prefix);
            }
            if self.matches_at(i, &q) {
                let ghost old_out = out@;
                out.push(&self.commands[i]);
                proof {
                    assert(out@.map_values(|c: &CommandInfo| c@) =~= old_out.map_values(
                        |c: &CommandInfo| c@,
                    ).push(self@[i as int]));
                }
            }
            i = i + 1;
        }
        proof {
            assert(self@.subrange(0, self@.len() as int) =~= self@);
        }
        out
    }
}

impl Default for CommandRegistry {
    fn default() -> (r: CommandRegistry)
        ensures
            r@ == default_commands(),
    {
        CommandRegistry::new()
    }
}

} // verus!
