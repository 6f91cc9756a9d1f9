//! The keys of each mode, as the help shows them.
use vstd::prelude::*;

verus! {

/// A mode with keys of its own.
#[derive(Debug, Clone, Copy, PartialEq, Eq, Hash, Structural)]
pub enum Mode {
    /// The table of resources.
    ListView,
    /// The YAML editor outside of typing.
    EditorNormal,
    /// Typing in the YAML editor.
    EditorInsert,
    LogViewer,
    PortForwardManager,
}

/// The heading of a mode.
pub open spec fn mode_label(mode: Mode) -> Seq<char> {
    match mode {
        Mode::ListView => "List View"@,
        Mode::EditorNormal => "Editor (Normal)"@,
        Mode::EditorInsert => "Editor (Insert)"@,
        Mode::LogViewer => "Log Viewer"@,
        Mode::PortForwardManager => "Port Forwards"@,
    }
}

/// All modes, in the order in which they are shown.
pub open spec fn all_modes() -> Seq<Mode> {
    seq![
        Mode::ListView,
        Mode::EditorNormal,
        Mode::EditorInsert,
        Mode::LogViewer,
        Mode::PortForwardManager,
    ]
}

impl Mode {
    /// The heading of a mode.
    pub fn label(&self) -> (r: &'static str)
        ensures
            r@ == mode_label(*self),
    {
        match self {
            Mode::ListView => "List View",
            Mode::EditorNormal => "Editor (Normal)",
            Mode::EditorInsert => "Editor (Insert)",
            Mode::LogViewer => "Log Viewer",
            Mode::PortForwardManager => "Port Forwards",
        }
    }

    /// All modes, in the order in which they are shown.
    pub fn all() -> (r: Vec<Mode>)
        ensures
            r@ == all_modes(),
    {
        vec![
            Mode::ListView,
            Mode::EditorNormal,
            Mode::EditorInsert,
            Mode::LogViewer,
            Mode::PortForwardManager,
        ]
    }
}

/// Every mode is among those that are shown.
pub proof fn law_all_modes_listed(mode: Mode)
    ensures
        all_modes().contains(mode),
{
    let i: int = match mode {
        Mode::ListView => 0,
        Mode::EditorNormal => 1,
        Mode::EditorInsert => 2,
        Mode::LogViewer => 3,
        Mode::PortForwardManager => 4,
    };
    assert(all_modes()[i] == mode);
}

/// A group of keys within a mode.
#[derive(Debug, Clone, Copy, PartialEq, Eq, Hash, Structural)]
pub enum Category {
    Navigation,
    Actions,
    ResourceSwitch,
    Search,
    CommandMode,
    Editing,
    Selection,
    Clipboard,
    UndoRedo,
    Global,
}

/// The heading of a group.
pub open spec fn category_label(category: Category) -> Seq<char> {
    match category {
        Category::Navigation => "Navigation"@,
        Category::Actions => "Actions"@,
        Category::ResourceSwitch => "Resource Switch"@,
        Category::Search => "Search"@,
        Category::CommandMode => "Command Mode"@,
        Category::Editing => "Editing"@,
        Category::Selection => "Selection"@,
        Category::Clipboard => "Clipboard"@,
        Category::UndoRedo => "Undo / Redo"@,
        Category::Global => "Global"@,
    }
}

impl Category {
    /// The heading of a group.
    pub fn label(&self) -> (r: &'static str)
        ensures
            r@ == category_label(*self),
    {
        match self {
            Category::Navigation => "Navigation",
            Category::Actions => "Actions",
            Category::ResourceSwitch => "Resource Switch",
            Category::Search => "Search",
            Category::CommandMode => "Command Mode",
            Category::Editing => "Editing",
            Category::Selection => "Selection",
            Category::Clipboard => "Clipboard",
            Category::UndoRedo => "Undo / Redo",
            Category::Global => "Global",
        }
    }
}

/// A key, what it does, and its group.
#[derive(Debug, Clone, Copy)]
pub struct KeybindingEntry {
    pub key: &'static str,
    pub description: &'static str,
    pub category: Category,
}

/// A key as a value.
#[verifier::ext_equal]
pub struct EntryModel {
    pub key: Seq<char>,
    pub description: Seq<char>,
    pub category: Category,
}

impl View for KeybindingEntry {
    type V = EntryModel;

    open spec fn view(&self) -> EntryModel {
        EntryModel { key: self.key@, description: self.description@, category: self.category }
    }
}

/// Keys as values.
pub open spec fn entries_model(s: Seq<KeybindingEntry>) -> Seq<EntryModel> {
    s.map_values(|e: KeybindingEntry| e@)
}

/// A key.
pub open spec fn entry(key: Seq<char>, description: Seq<char>, category: Category) -> EntryModel {
    EntryModel { key, description, category }
}

// ---------------------------------------------------------------------------
// The keys
// ---------------------------------------------------------------------------

/// The keys of the table view.
pub open spec fn list_view_keys() -> Seq<EntryModel> {
    seq![
        entry("j / ↓"@, "Move cursor down"@, Category::Navigation),
        entry("k / ↑"@, "Move cursor up"@, Category::Navigation),
        entry("h / ←"@, "Collapse tree node / move left"@, Category::Navigation),
        entry("l / →"@, "Expand tree node / move right"@, Category::Navigation),
        entry("PgUp / PgDn"@, "Jump half page up/down"@, Category::Navigation),
        entry("Home / End"@, "Jump to first / last item"@, Category::Navigation),
        entry("Enter"@, "Select cluster/namespace or describe resource"@, Category::Navigation),
        entry("Tab"@, "Switch panel (Sidebar ↔ Center)"@, Category::Navigation),
        entry("Shift+Tab"@, "Switch panel (reverse)"@, Category::Navigation),
        entry("1 / 2"@, "Switch tab (Resources / Top)"@, Category::Navigation),
        entry("e"@, "Edit resource YAML"@, Category::Actions),
        entry("d"@, "Describe resource (YAML view)"@, Category::Actions),
        entry("Ctrl+d"@, "Delete resource (with confirmation)"@, Category::Actions),
        entry("l"@, "View logs (pods only)"@, Category::Actions),
        entry("s"@, "Shell exec into pod"@, Category::Actions),
        entry("Shift+f"@, "Port-forward selected pod/service"@, Category::Actions),
        entry("p"@, "Switch to Pods view"@, Category::ResourceSwitch),
        entry("/"@, "Start fuzzy filter"@, Category::Search),
        entry("ESC"@, "Clear filter / close overlay"@, Category::Search),
        entry(":"@, "Open command mode (e.g. :deploy :svc :crd)"@, Category::CommandMode),
        entry("r"@, "Force refresh"@, Category::Global),
        entry("?"@, "Toggle help overlay"@, Category::Global),
        entry("q"@, "Quit"@, Category::Global),
        entry("Ctrl+c"@, "Force quit (always works)"@, Category::Global),
    ]
}

/// The keys of the editor outside of typing.
pub open spec fn editor_normal_keys() -> Seq<EntryModel> {
    seq![
        entry("h / j / k / l"@, "Move cursor left/down/up/right"@, Category::Navigation),
        entry("w / b"@, "Next / previous word"@, Category::Navigation),
        entry("0 / $"@, "Start / end of line"@, Category::Navigation),
        entry("gg / G"@, "Go to first / last line"@, Category::Navigation),
        entry("Ctrl+u / Ctrl+d"@, "Half-page up / down"@, Category::Navigation),
        entry("{ / }"@, "Previous / next blank line"@, Category::Navigation),
        entry("i"@, "Enter insert mode (before cursor)"@, Category::Editing),
        entry("a"@, "Enter insert mode (after cursor)"@, Category::Editing),
        entry("o / O"@, "Open line below / above"@, Category::Editing),
        entry("x"@, "Delete character under cursor"@, Category::Editing),
        entry("dd"@, "Delete (cut) current line"@, Category::Editing),
        entry("D"@, "Delete to end of line"@, Category::Editing),
        entry("cc"@, "Change (replace) current line"@, Category::Editing),
        entry("C"@, "Change to end of line"@, Category::Editing),
        entry("yy"@, "Yank (copy) current line"@, Category::Clipboard),
        entry("p / P"@, "Paste after / before cursor"@, Category::Clipboard),
        entry("u"@, "Undo"@, Category::UndoRedo),
        entry("Ctrl+r"@, "Redo"@, Category::UndoRedo),
        entry(":w"@, "Save (server-side apply)"@, Category::Actions),
        entry(":q"@, "Quit editor (discard if unchanged)"@, Category::Actions),
        entry(":wq"@, "Save and quit editor"@, Category::Actions),
        entry(":q!"@, "Force quit (discard changes)"@, Category::Actions),
        entry("/"@, "Search forward in document"@, Category::Search),
        entry("n / N"@, "Next / previous search match"@, Category::Search),
        entry("ESC"@, "Return to list view (if unchanged)"@, Category::Global),
    ]
}

/// The keys of typing in the editor.
pub open spec fn editor_insert_keys() -> Seq<EntryModel> {
    seq![
        entry("<type>"@, "Insert characters at cursor"@, Category::Editing),
        entry("Backspace"@, "Delete character before cursor"@, Category::Editing),
        entry("Delete"@, "Delete character under cursor"@, Category::Editing),
        entry("Enter"@, "Insert newline"@, Category::Editing),
        entry("← / → / ↑ / ↓"@, "Move cursor"@, Category::Navigation),
        entry("Home / End"@, "Start / end of line"@, Category::Navigation),
        entry("ESC"@, "Return to normal mode"@, Category::Global),
    ]
}

/// The keys of the log viewer.
pub open spec fn log_viewer_keys() -> Seq<EntryModel> {
    seq![
        entry("j / ↓"@, "Scroll down one line"@, Category::Navigation),
        entry("k / ↑"@, "Scroll up one line"@, Category::Navigation),
        entry("PgUp / PgDn"@, "Scroll half page up/down"@, Category::Navigation),
        entry("g / G"@, "Jump to top / bottom"@, Category::Navigation),
        entry("f"@, "Toggle auto-follow (tail mode)"@, Category::Actions),
        entry("w"@, "Toggle line wrap"@, Category::Actions),
        entry("t"@, "Toggle timestamps"@, Category::Actions),
        entry("p"@, "Toggle previous container logs"@, Category::Actions),
        entry("c"@, "Switch container (if multi-container pod)"@, Category::Actions),
        entry("/"@, "Search / filter log lines"@, Category::Search),
        entry("n / N"@, "Next / previous match"@, Category::Search),
        entry("q / ESC"@, "Close log viewer"@, Category::Global),
        entry("Ctrl+c"@, "Force quit (always works)"@, Category::Global),
    ]
}

/// The keys of the port-forward manager.
pub open spec fn port_forward_keys() -> Seq<EntryModel> {
    seq![
        entry("j / ↓"@, "Move cursor down"@, Category::Navigation),
        entry("k / ↑"@, "Move cursor up"@, Category::Navigation),
        entry("Enter"@, "Edit selected port-forward"@, Category::Actions),
        entry("d"@, "Delete (stop) selected port-forward"@, Category::Actions),
        entry("a"@, "Add new port-forward"@, Category::Actions),
        entry("r"@, "Restart selected port-forward"@, Category::Actions),
        entry("q / ESC"@, "Close port-forward manager"@, Category::Global),
        entry("Ctrl+c"@, "Force quit (always works)"@, Category::Global),
    ]
}

/// The keys of a mode.
pub open spec fn mode_keys(mode: Mode) -> Seq<EntryModel> {
    match mode {
        Mode::ListView => list_view_keys(),
        Mode::EditorNormal => editor_normal_keys(),
        Mode::EditorInsert => editor_insert_keys(),
        Mode::LogViewer => log_viewer_keys(),
        Mode::PortForwardManager => port_forward_keys(),
    }
}

/// Adds a key.
fn bind(
    v: &mut Vec<KeybindingEntry>,
    key: &'static str,
    description: &'static str,
    category: Category,
)
    ensures
        entries_model(final(v)@) == entries_model(old(v)@).push(
            entry(key@, description@, category),
        ),
{
    let ghost before = v@;
    let e = KeybindingEntry { key, description, category };
    v.push(e);
    proof {
        assert(entries_model(v@) =~= entries_model(before).push(e@));
    }
}

/// The keys of each mode.
pub struct KeybindingRegistry {
    entries: Vec<(Mode, Vec<KeybindingEntry>)>,
}

impl KeybindingRegistry {
    /// Whether each mode has its keys, in the order in which modes are shown.
    pub closed spec fn wf(self) -> bool {
        &&& self.entries@.len() == all_modes().len()
        &&& forall|i: int|
            0 <= i < self.entries@.len() ==> (#[trigger] self.entries@[i]).0 == all_modes()[i]
                && entries_model(self.entries@[i].1@) == mode_keys(all_modes()[i])
    }

    /// The registry of all modes.
    pub fn new() -> (r: Self)
        ensures
            r.wf(),
    {
        KeybindingRegistry {
            entries: vec![
                (Mode::ListView, Self::list_view_bindings()),
                (Mode::EditorNormal, Self::editor_normal_bindings()),
                (Mode::EditorInsert, Self::editor_insert_bindings()),
                (Mode::LogViewer, Self::log_viewer_bindings()),
                (Mode::PortForwardManager, Self::port_forward_bindings()),
            ],
        }
    }

    /// The keys of a mode.
    pub fn get(&self, mode: Mode) -> (r: &[KeybindingEntry])
        requires
            self.wf(),
        ensures
            entries_model(r@) == mode_keys(mode),
    {
        let i: usize = match mode {
            Mode::ListView => 0,
            Mode::EditorNormal => 1,
            Mode::EditorInsert => 2,
            Mode::LogViewer => 3,
            Mode::PortForwardManager => 4,
        };
        self.entries[i].1.as_slice()
    }

    /// Each mode with its keys, in the order in which they are shown.
    pub fn iter(&self) -> (r: &[(Mode, Vec<KeybindingEntry>)])
        requires
            self.wf(),
        ensures
            r@.len() == all_modes().len(),
            forall|i: int|
                0 <= i < r@.len() ==> (#[trigger] r@[i]).0 == all_modes()[i] && entries_model(
                    r@[i].1@,
                ) == mode_keys(all_modes()[i]),
    {
        self.entries.as_slice()
    }

    fn list_view_bindings() -> (r: Vec<KeybindingEntry>)
        ensures
            entries_model(r@) == list_view_keys(),
    {
        let mut v: Vec<KeybindingEntry> = Vec::new();
        bind(&mut v, "j / ↓", "Move cursor down", Category::Navigation);
        bind(&mut v, "k / ↑", "Move cursor up", Category::Navigation);
        bind(&mut v, "h / ←", "Collapse tree node / move left", Category::Navigation);
        bind(&mut v, "l / →", "Expand tree node / move right", Category::Navigation);
        bind(&mut v, "PgUp / PgDn", "Jump half page up/down", Category::Navigation);
        bind(&mut v, "Home / End", "Jump to first / last item", Category::Navigation);
        bind(
            &mut v,
            "Enter",
            "Select cluster/namespace or describe resource",
            Category::Navigation,
        );
        bind(&mut v, "Tab", "Switch panel (Sidebar ↔ Center)", Category::Navigation);
        bind(&mut v, "Shift+Tab", "Switch panel (reverse)", Category::Navigation);
        bind(&mut v, "1 / 2", "Switch tab (Resources / Top)", Category::Navigation);
        bind(&mut v, "e", "Edit resource YAML", Category::Actions);
        bind(&mut v, "d", "Describe resource (YAML view)", Category::Actions);
        bind(&mut v, "Ctrl+d", "Delete resource (with confirmation)", Category::Actions);
        bind(&mut v, "l", "View logs (pods only)", Category::Actions);
        bind(&mut v, "s", "Shell exec into pod", Category::Actions);
        bind(&mut v, "Shift+f", "Port-forward selected pod/service", Category::Actions);
        bind(&mut v, "p", "Switch to Pods view", Category::ResourceSwitch);
        bind(&mut v, "/", "Start fuzzy filter", Category::Search);
        bind(&mut v, "ESC", "Clear filter / close overlay", Category::Search);
        bind(&mut v, ":", "Open command mode (e.g. :deploy :svc :crd)", Category::CommandMode);
        bind(&mut v, "r", "Force refresh", Category::Global);
        bind(&mut v, "?", "Toggle help overlay", Category::Global);
        bind(&mut v, "q", "Quit", Category::Global);
        bind(&mut v, "Ctrl+c", "Force quit (always works)", Category::Global);
        proof {
            assert(entries_model(v@) =~= list_view_keys());
        }
        v
    }

    fn editor_normal_bindings() -> (r: Vec<KeybindingEntry>)
        ensures
            entries_model(r@) == editor_normal_keys(),
    {
        let mut v: Vec<KeybindingEntry> = Vec::new();
        bind(&mut v, "h / j / k / l", "Move cursor left/down/up/right", Category::Navigation);
        bind(&mut v, "w / b", "Next / previous word", Category::Navigation);
        bind(&mut v, "0 / $", "Start / end of line", Category::Navigation);
        bind(&mut v, "gg / G", "Go to first / last line", Category::Navigation);
        bind(&mut v, "Ctrl+u / Ctrl+d", "Half-page up / down", Category::Navigation);
        bind(&mut v, "{ / }", "Previous / next blank line", Category::Navigation);
        bind(&mut v, "i", "Enter insert mode (before cursor)", Category::Editing);
        bind(&mut v, "a", "Enter insert mode (after cursor)", Category::Editing);
        bind(&mut v, "o / O", "Open line below / above", Category::Editing);
        bind(&mut v, "x", "Delete character under cursor", Category::Editing);
        bind(&mut v, "dd", "Delete (cut) current line", Category::Editing);
        bind(&mut v, "D", "Delete to end of line", Category::Editing);
        bind(&mut v, "cc", "Change (replace) current line", Category::Editing);
        bind(&mut v, "C", "Change to end of line", Category::Editing);
        bind(&mut v, "yy", "Yank (copy) current line", Category::Clipboard);
        bind(&mut v, "p / P", "Paste after / before cursor", Category::Clipboard);
        bind(&mut v, "u", "Undo", Category::UndoRedo);
        bind(&mut v, "Ctrl+r", "Redo", Category::UndoRedo);
        bind(&mut v, ":w", "Save (server-side apply)", Category::Actions);
        bind(&mut v, ":q", "Quit editor (discard if unchanged)", Category::Actions);
        bind(&mut v, ":wq", "Save and quit editor", Category::Actions);
        bind(&mut v, ":q!", "Force quit (discard changes)", Category::Actions);
        bind(&mut v, "/", "Search forward in document", Category::Search);
        bind(&mut v, "n / N", "Next / previous search match", Category::Search);
        bind(&mut v, "ESC", "Return to list view (if unchanged)", Category::Global);
        proof {
            assert(entries_model(v@) =~= editor_normal_keys());
        }
        v
    }

    fn editor_insert_bindings() -> (r: Vec<KeybindingEntry>)
        ensures
            entries_model(r@) == editor_insert_keys(),
    {
        let mut v: Vec<KeybindingEntry> = Vec::new();
        bind(&mut v, "<type>", "Insert characters at cursor", Category::Editing);
        bind(&mut v, "Backspace", "Delete character before cursor", Category::Editing);
        bind(&mut v, "Delete", "Delete character under cursor", Category::Editing);
        bind(&mut v, "Enter", "Insert newline", Category::Editing);
        bind(&mut v, "← / → / ↑ / ↓", "Move cursor", Category::Navigation);
        bind(&mut v, "Home / End", "Start / end of line", Category::Navigation);
        bind(&mut v, "ESC", "Return to normal mode", Category::Global);
        proof {
            assert(entries_model(v@) =~= editor_insert_keys());
        }
        v
    }

    fn log_viewer_bindings() -> (r: Vec<KeybindingEntry>)
        ensures
            entries_model(r@) == log_viewer_keys(),
    {
        let mut v: Vec<KeybindingEntry> = Vec::new();
        bind(&mut v, "j / ↓", "Scroll down one line", Category::Navigation);
        bind(&mut v, "k / ↑", "Scroll up one line", Category::Navigation);
        bind(&mut v, "PgUp / PgDn", "Scroll half page up/down", Category::Navigation);
        bind(&mut v, "g / G", "Jump to top / bottom", Category::Navigation);
        bind(&mut v, "f", "Toggle auto-follow (tail mode)", Category::Actions);
        bind(&mut v, "w", "Toggle line wrap", Category::Actions);
        bind(&mut v, "t", "Toggle timestamps", Category::Actions);
        bind(&mut v, "p", "Toggle previous container logs", Category::Actions);
        bind(&mut v, "c", "Switch container (if multi-container pod)", Category::Actions);
        bind(&mut v, "/", "Search / filter log lines", Category::Search);
        bind(&mut v, "n / N", "Next / previous match", Category::Search);
        bind(&mut v, "q / ESC", "Close log viewer", Category::Global);
        bind(&mut v, "Ctrl+c", "Force quit (always works)", Category::Global);
        proof {
            assert(entries_model(v@) =~= log_viewer_keys());
        }
        v
    }

    fn port_forward_bindings() -> (r: Vec<KeybindingEntry>)
        ensures
            entries_model(r@) == port_forward_keys(),
    {
        let mut v: Vec<KeybindingEntry> = Vec::new();
        bind(&mut v, "j / ↓", "Move cursor down", Category::Navigation);
        bind(&mut v, "k / ↑", "Move cursor up", Category::Navigation);
        bind(&mut v, "Enter", "Edit selected port-forward", Category::Actions);
        bind(&mut v, "d", "Delete (stop) selected port-forward", Category::Actions);
        bind(&mut v, "a", "Add new port-forward", Category::Actions);
        bind(&mut v, "r", "Restart selected port-forward", Category::Actions);
        bind(&mut v, "q / ESC", "Close port-forward manager", Category::Global);
        bind(&mut v, "Ctrl+c", "Force quit (always works)", Category::Global);
        proof {
            assert(entries_model(v@) =~= port_forward_keys());
        }
        v
    }
}

impl Default for KeybindingRegistry {
    fn default() -> (r: Self)
        ensures
            r.wf(),
    {
        KeybindingRegistry::new()
    }
}

// ---------------------------------------------------------------------------
// Laws
// ---------------------------------------------------------------------------

/// Every mode has keys, and the last of them is a global one: there is always a
/// way out.
pub proof fn law_every_mode_has_a_way_out(mode: Mode)
    ensures
        mode_keys(mode).len() > 0,
        mode_keys(mode).last().category == Category::Global,
{
}

/// No key stands twice in one group of the table view.
proof fn lemma_list_view_keys_distinct(i: int, j: int)
    requires
        0 <= i < j < list_view_keys().len(),
        list_view_keys()[i].category == list_view_keys()[j].category,
    ensures
        list_view_keys()[i].key != list_view_keys()[j].key,
{
    reveal_strlit("/");
    assert("/"@.len() == 1 && "/"@[0] == '/');
    reveal_strlit("1 / 2");
    assert("1 / 2"@.len() == 5 && "1 / 2"@[0] == '1' && "1 / 2"@[1] == ' ');
    reveal_strlit(":");
    assert(":"@.len() == 1 && ":"@[0] == ':');
    reveal_strlit("?");
    assert("?"@.len() == 1 && "?"@[0] == '?');
    reveal_strlit("Ctrl+c");
    assert("Ctrl+c"@.len() == 6 && "Ctrl+c"@[0] == 'C' && "Ctrl+c"@[1] == 't');
    reveal_strlit("Ctrl+d");
    assert("Ctrl+d"@.len() == 6 && "Ctrl+d"@[0] == 'C' && "Ctrl+d"@[1] == 't');
    reveal_strlit("ESC");
    assert("ESC"@.len() == 3 && "ESC"@[0] == 'E' && "ESC"@[1] == 'S');
    reveal_strlit("Enter");
    assert("Enter"@.len() == 5 && "Enter"@[0] == 'E' && "Enter"@[1] == 'n');
    reveal_strlit("Home / End");
    assert("Home / End"@.len() == 10 && "Home / End"@[0] == 'H' && "Home / End"@[1] == 'o');
    reveal_strlit("PgUp / PgDn");
    assert("PgUp / PgDn"@.len() == 11 && "PgUp / PgDn"@[0] == 'P' && "PgUp / PgDn"@[1] == 'g');
    reveal_strlit("Shift+Tab");
    assert("Shift+Tab"@.len() == 9 && "Shift+Tab"@[0] == 'S' && "Shift+Tab"@[1] == 'h');
    reveal_strlit("Shift+f");
    assert("Shift+f"@.len() == 7 && "Shift+f"@[0] == 'S' && "Shift+f"@[1] == 'h');
    reveal_strlit("Tab");
    assert("Tab"@.len() == 3 && "Tab"@[0] == 'T' && "Tab"@[1] == 'a');
    reveal_strlit("d");
    assert("d"@.len() == 1 && "d"@[0] == 'd');
    reveal_strlit("e");
    assert("e"@.len() == 1 && "e"@[0] == 'e');
    reveal_strlit("h / ←");
    assert("h / ←"@.len() == 5 && "h / ←"@[0] == 'h' && "h / ←"@[1] == ' ');
    reveal_strlit("j / ↓");
    assert("j / ↓"@.len() == 5 && "j / ↓"@[0] == 'j' && "j / ↓"@[1] == ' ');
    reveal_strlit("k / ↑");
    assert("k / ↑"@.len() == 5 && "k / ↑"@[0] == 'k' && "k / ↑"@[1] == ' ');
    reveal_strlit("l / →");
    assert("l / →"@.len() == 5 && "l / →"@[0] == 'l' && "l / →"@[1] == ' ');
    reveal_strlit("l");
    assert("l"@.len() == 1 && "l"@[0] == 'l');
    reveal_strlit("p");
    assert("p"@.len() == 1 && "p"@[0] == 'p');
    reveal_strlit("q");
    assert("q"@.len() == 1 && "q"@[0] == 'q');
    reveal_strlit("r");
    assert("r"@.len() == 1 && "r"@[0] == 'r');
    reveal_strlit("s");
    assert("s"@.len() == 1 && "s"@[0] == 's');
}

/// No key stands twice in one group of the editor outside of typing.
proof fn lemma_editor_normal_keys_distinct(i: int, j: int)
    requires
        0 <= i < j < editor_normal_keys().len(),
        editor_normal_keys()[i].category == editor_normal_keys()[j].category,
    ensures
        editor_normal_keys()[i].key != editor_normal_keys()[j].key,
{
    reveal_strlit("/");
    assert("/"@.len() == 1 && "/"@[0] == '/');
    reveal_strlit("0 / $");
    assert("0 / $"@.len() == 5 && "0 / $"@[0] == '0' && "0 / $"@[1] == ' ');
    reveal_strlit(":q!");
    assert(":q!"@.len() == 3 && ":q!"@[0] == ':' && ":q!"@[1] == 'q');
    reveal_strlit(":q");
    assert(":q"@.len() == 2 && ":q"@[0] == ':' && ":q"@[1] == 'q');
    reveal_strlit(":w");
    assert(":w"@.len() == 2 && ":w"@[0] == ':' && ":w"@[1] == 'w');
    reveal_strlit(":wq");
    assert(":wq"@.len() == 3 && ":wq"@[0] == ':' && ":wq"@[1] == 'w');
    reveal_strlit("C");
    assert("C"@.len() == 1 && "C"@[0] == 'C');
    reveal_strlit("Ctrl+r");
    assert("Ctrl+r"@.len() == 6 && "Ctrl+r"@[0] == 'C' && "Ctrl+r"@[1] == 't');
    reveal_strlit("Ctrl+u / Ctrl+d");
    assert("Ctrl+u / Ctrl+d"@.len() == 15);
    assert("Ctrl+u / Ctrl+d"@[0] == 'C');
    assert("Ctrl+u / Ctrl+d"@[1] == 't');
    reveal_strlit("D");
    assert("D"@.len() == 1 && "D"@[0] == 'D');
    reveal_strlit("ESC");
    assert("ESC"@.len() == 3 && "ESC"@[0] == 'E' && "ESC"@[1] == 'S');
    reveal_strlit("a");
    assert("a"@.len() == 1 && "a"@[0] == 'a');
    reveal_strlit("cc");
    assert("cc"@.len() == 2 && "cc"@[0] == 'c' && "cc"@[1] == 'c');
    reveal_strlit("dd");
    assert("dd"@.len() == 2 && "dd"@[0] == 'd' && "dd"@[1] == 'd');
    reveal_strlit("gg / G");
    assert("gg / G"@.len() == 6 && "gg / G"@[0] == 'g' && "gg / G"@[1] == 'g');
    reveal_strlit("h / j / k / l");
    assert("h / j / k / l"@.len() == 13);
    assert("h / j / k / l"@[0] == 'h');
    assert("h / j / k / l"@[1] == ' ');
    reveal_strlit("i");
    assert("i"@.len() == 1 && "i"@[0] == 'i');
    reveal_strlit("n / N");
    assert("n / N"@.len() == 5 && "n / N"@[0] == 'n' && "n / N"@[1] == ' ');
    reveal_strlit("o / O");
    assert("o / O"@.len() == 5 && "o / O"@[0] == 'o' && "o / O"@[1] == ' ');
    reveal_strlit("p / P");
    assert("p / P"@.len() == 5 && "p / P"@[0] == 'p' && "p / P"@[1] == ' ');
    reveal_strlit("u");
    assert("u"@.len() == 1 && "u"@[0] == 'u');
    reveal_strlit("w / b");
    assert("w / b"@.len() == 5 && "w / b"@[0] == 'w' && "w / b"@[1] == ' ');
    reveal_strlit("x");
    assert("x"@.len() == 1 && "x"@[0] == 'x');
    reveal_strlit("yy");
    assert("yy"@.len() == 2 && "yy"@[0] == 'y' && "yy"@[1] == 'y');
    reveal_strlit("{ / }");
    assert("{ / }"@.len() == 5 && "{ / }"@[0] == '{' && "{ / }"@[1] == ' ');
}

/// No key stands twice in one group of typing in the editor.
proof fn lemma_editor_insert_keys_distinct(i: int, j: int)
    requires
        0 <= i < j < editor_insert_keys().len(),
        editor_insert_keys()[i].category == editor_insert_keys()[j].category,
    ensures
        editor_insert_keys()[i].key != editor_insert_keys()[j].key,
{
    reveal_strlit("<type>");
    assert("<type>"@.len() == 6 && "<type>"@[0] == '<' && "<type>"@[1] == 't');
    reveal_strlit("Backspace");
    assert("Backspace"@.len() == 9 && "Backspace"@[0] == 'B' && "Backspace"@[1] == 'a');
    reveal_strlit("Delete");
    assert("Delete"@.len() == 6 && "Delete"@[0] == 'D' && "Delete"@[1] == 'e');
    reveal_strlit("ESC");
    assert("ESC"@.len() == 3 && "ESC"@[0] == 'E' && "ESC"@[1] == 'S');
    reveal_strlit("Enter");
    assert("Enter"@.len() == 5 && "Enter"@[0] == 'E' && "Enter"@[1] == 'n');
    reveal_strlit("Home / End");
    assert("Home / End"@.len() == 10 && "Home / End"@[0] == 'H' && "Home / End"@[1] == 'o');
    reveal_strlit("← / → / ↑ / ↓");
    assert("← / → / ↑ / ↓"@.len() == 13);
    assert("← / → / ↑ / ↓"@[0] == '←');
    assert("← / → / ↑ / ↓"@[1] == ' ');
}

/// No key stands twice in one group of the log viewer.
proof fn lemma_log_viewer_keys_distinct(i: int, j: int)
    requires
        0 <= i < j < log_viewer_keys().len(),
        log_viewer_keys()[i].category == log_viewer_keys()[j].category,
    ensures
        log_viewer_keys()[i].key != log_viewer_keys()[j].key,
{
    reveal_strlit("/");
    assert("/"@.len() == 1 && "/"@[0] == '/');
    reveal_strlit("Ctrl+c");
    assert("Ctrl+c"@.len() == 6 && "Ctrl+c"@[0] == 'C' && "Ctrl+c"@[1] == 't');
    reveal_strlit("PgUp / PgDn");
    assert("PgUp / PgDn"@.len() == 11 && "PgUp / PgDn"@[0] == 'P' && "PgUp / PgDn"@[1] == 'g');
    reveal_strlit("c");
    assert("c"@.len() == 1 && "c"@[0] == 'c');
    reveal_strlit("f");
    assert("f"@.len() == 1 && "f"@[0] == 'f');
    reveal_strlit("g / G");
    assert("g / G"@.len() == 5 && "g / G"@[0] == 'g' && "g / G"@[1] == ' ');
    reveal_strlit("j / ↓");
    assert("j / ↓"@.len() == 5 && "j / ↓"@[0] == 'j' && "j / ↓"@[1] == ' ');
    reveal_strlit("k / ↑");
    assert("k / ↑"@.len() == 5 && "k / ↑"@[0] == 'k' && "k / ↑"@[1] == ' ');
    reveal_strlit("n / N");
    assert("n / N"@.len() == 5 && "n / N"@[0] == 'n' && "n / N"@[1] == ' ');
    reveal_strlit("p");
    assert("p"@.len() == 1 && "p"@[0] == 'p');
    reveal_strlit("q / ESC");
    assert("q / ESC"@.len() == 7 && "q / ESC"@[0] == 'q' && "q / ESC"@[1] == ' ');
    reveal_strlit("t");
    assert("t"@.len() == 1 && "t"@[0] == 't');
    reveal_strlit("w");
    assert("w"@.len() == 1 && "w"@[0] == 'w');
}

/// No key stands twice in one group of the port-forward manager.
proof fn lemma_port_forward_keys_distinct(i: int, j: int)
    requires
        0 <= i < j < port_forward_keys().len(),
        port_forward_keys()[i].category == port_forward_keys()[j].category,
    ensures
        port_forward_keys()[i].key != port_forward_keys()[j].key,
{
    reveal_strlit("Ctrl+c");
    assert("Ctrl+c"@.len() == 6 && "Ctrl+c"@[0] == 'C' && "Ctrl+c"@[1] == 't');
    reveal_strlit("Enter");
    assert("Enter"@.len() == 5 && "Enter"@[0] == 'E' && "Enter"@[1] == 'n');
    reveal_strlit("a");
    assert("a"@.len() == 1 && "a"@[0] == 'a');
    reveal_strlit("d");
    assert("d"@.len() == 1 && "d"@[0] == 'd');
    reveal_strlit("j / ↓");
    assert("j / ↓"@.len() == 5 && "j / ↓"@[0] == 'j' && "j / ↓"@[1] == ' ');
    reveal_strlit("k / ↑");
    assert("k / ↑"@.len() == 5 && "k / ↑"@[0] == 'k' && "k / ↑"@[1] == ' ');
    reveal_strlit("q / ESC");
    assert("q / ESC"@.len() == 7 && "q / ESC"@[0] == 'q' && "q / ESC"@[1] == ' ');
    reveal_strlit("r");
    assert("r"@.len() == 1 && "r"@[0] == 'r');
}

/// No key stands twice in one group of a mode.
pub proof fn law_keys_distinct(mode: Mode, i: int, j: int)
    requires
        0 <= i < j < mode_keys(mode).len(),
        mode_keys(mode)[i].category == mode_keys(mode)[j].category,
    ensures
        mode_keys(mode)[i].key != mode_keys(mode)[j].key,
{
    match mode {
        Mode::ListView => lemma_list_view_keys_distinct(i, j),
        Mode::EditorNormal => lemma_editor_normal_keys_distinct(i, j),
        Mode::EditorInsert => lemma_editor_insert_keys_distinct(i, j),
        Mode::LogViewer => lemma_log_viewer_keys_distinct(i, j),
        Mode::PortForwardManager => lemma_port_forward_keys_distinct(i, j),
    }
}

} // verus!
