//! The help: which keys work in which mode, laid out in a popup that scrolls.
use vstd::prelude::*;
use crate::display::{
    at_least, at_most, blank_line, bold, colored, framed, greater, less, lesser, lemma_lines_push,
    line_of_span, lines_model, minus, pad, padded, plain_text, repeat, repeated, span, unstyled,
    Area, Color, Line, SpanModel, Style,
};
use crate::list::{count, lemma_take_all};
use crate::text::{count_room_left, room_left};

verus! {

broadcast use {lemma_lines_push, lemma_take_all};

// ---------------------------------------------------------------------------
// Keys
// ---------------------------------------------------------------------------

/// A key and what it does.
#[derive(Debug, Clone, Copy, PartialEq, Eq)]
pub struct KeyEntry {
    pub key: &'static str,
    pub desc: &'static str,
}

impl View for KeyEntry {
    type V = (Seq<char>, Seq<char>);

    open spec fn view(&self) -> (Seq<char>, Seq<char>) {
        (self.key@, self.desc@)
    }
}

impl KeyEntry {
    /// A key and what it does.
    pub fn new(key: &'static str, desc: &'static str) -> (r: Self)
        ensures
            r.key == key,
            r.desc == desc,
    {
        KeyEntry { key, desc }
    }
}

/// A named group of keys.
#[derive(Debug)]
pub struct KeyCategory {
    pub label: &'static str,
    pub entries: Vec<KeyEntry>,
}

/// A named group of keys as a value.
#[verifier::ext_equal]
pub struct CategoryModel {
    pub label: Seq<char>,
    pub entries: Seq<(Seq<char>, Seq<char>)>,
}

impl View for KeyCategory {
    type V = CategoryModel;

    open spec fn view(&self) -> CategoryModel {
        CategoryModel {
            label: self.label@,
            entries: self.entries@.map_values(|e: KeyEntry| e@),
        }
    }
}

/// Groups as values.
pub open spec fn categories_model(s: Seq<KeyCategory>) -> Seq<CategoryModel> {
    s.map_values(|c: KeyCategory| c@)
}

impl KeyCategory {
    /// A named group of keys.
    pub fn new(label: &'static str, entries: Vec<KeyEntry>) -> (r: Self)
        ensures
            r.label == label,
            r.entries == entries,
    {
        KeyCategory { label, entries }
    }

    /// How many lines the group takes: a heading, an empty line and the keys.
    pub fn rendered_line_count(&self) -> (r: usize)
        requires
            self@.entries.len() + 2 <= usize::MAX,
        ensures
            r == category_lines(self@),
    {
        2 + self.entries.len()
    }
}

/// How many lines a group takes.
pub open spec fn category_lines(c: CategoryModel) -> nat {
    2 + c.entries.len()
}

// ---------------------------------------------------------------------------
// Modes
// ---------------------------------------------------------------------------

/// What is in use when the help is opened.
#[derive(Debug, Clone, PartialEq, Eq)]
pub enum ActiveMode {
    Sidebar,
    /// A table of resources of this name.
    ResourceTable(String),
    Top,
    Search,
    CommandMode,
}

/// The name of a mode.
pub open spec fn mode_name(mode: ActiveMode) -> Seq<char> {
    match mode {
        ActiveMode::Sidebar => "Sidebar"@,
        ActiveMode::ResourceTable(name) => name@,
        ActiveMode::Top => "Top"@,
        ActiveMode::Search => "Search"@,
        ActiveMode::CommandMode => "Command"@,
    }
}

/// The keys of a mode.
pub open spec fn mode_categories(mode: ActiveMode) -> Seq<CategoryModel> {
    match mode {
        ActiveMode::Search => search_keys(),
        ActiveMode::CommandMode => command_keys(),
        ActiveMode::Sidebar => sidebar_keys(),
        ActiveMode::Top => top_keys(),
        ActiveMode::ResourceTable(_) => resource_keys(),
    }
}

impl ActiveMode {
    /// The name of a mode.
    pub fn label(&self) -> (r: String)
        ensures
            r@ == mode_name(*self),
    {
        match self {
            ActiveMode::Sidebar => "Sidebar".to_owned(),
            ActiveMode::ResourceTable(name) => name.clone(),
            ActiveMode::Top => "Top".to_owned(),
            ActiveMode::Search => "Search".to_owned(),
            ActiveMode::CommandMode => "Command".to_owned(),
        }
    }

    /// The keys of a mode.
    pub fn categories(&self) -> (r: Vec<KeyCategory>)
        ensures
            categories_model(r@) == mode_categories(*self),
    {
        match self {
            ActiveMode::Search => search_categories(),
            ActiveMode::CommandMode => command_mode_categories(),
            ActiveMode::Sidebar => sidebar_categories(),
            ActiveMode::Top => top_categories(),
            ActiveMode::ResourceTable(name) => resource_categories(name.as_str()),
        }
    }
}

/// The keys that work everywhere.
pub open spec fn global_keys() -> CategoryModel {
    CategoryModel {
        label: "Global"@,
        entries: seq![
            ("q/Ctrl+C"@, "Quit"@),
            ("Tab"@, "Switch panel (Sidebar ↔ Center)"@),
            ("Shift+Tab"@, "Switch panel (reverse)"@),
            ("1/2"@, "Switch tab (Resources/Top)"@),
            ("/"@, "Search (filter)"@),
            (":"@, "Command mode"@),
            ("ESC"@, "Clear filter / close overlay"@),
            ("r"@, "Force refresh"@),
            ("?"@, "Toggle this help"@),
        ],
    }
}

/// The keys while a search is typed.
pub open spec fn search_keys() -> Seq<CategoryModel> {
    seq![
        CategoryModel {
            label: "Search Mode"@,
            entries: seq![
                ("<type>"@, "Filter by name/namespace"@),
                ("Enter"@, "Confirm search"@),
                ("ESC"@, "Cancel search"@),
                ("Backspace"@, "Delete character"@),
            ],
        },
        global_keys(),
    ]
}

/// The keys while a command is typed.
pub open spec fn command_keys() -> Seq<CategoryModel> {
    seq![
        CategoryModel {
            label: "Command Mode"@,
            entries: seq![
                ("<type>"@, "Resource type (e.g. pods, deploy)"@),
                ("Tab"@, "Accept suggestion"@),
                ("↑/↓"@, "Navigate suggestions"@),
                ("Enter"@, "Execute command"@),
                ("ESC"@, "Cancel"@),
                ("Backspace"@, "Delete character"@),
            ],
        },
        global_keys(),
    ]
}

/// The keys of the sidebar.
pub open spec fn sidebar_keys() -> Seq<CategoryModel> {
    seq![
        CategoryModel {
            label: "Sidebar Navigation"@,
            entries: seq![
                ("j/k"@, "Move cursor (no selection)"@),
                ("PgUp/Dn"@, "Jump half page"@),
                ("Home/End"@, "Jump to first/last"@),
                ("h/l"@, "Collapse / Expand"@),
                ("Enter"@, "Select cluster/namespace"@),
            ],
        },
        global_keys(),
    ]
}

/// The keys of the node view.
pub open spec fn top_keys() -> Seq<CategoryModel> {
    seq![
        CategoryModel {
            label: "Top — Node Resources"@,
            entries: seq![
                ("j/k"@, "Scroll nodes"@),
                ("PgUp/Dn"@, "Jump half page"@),
                ("Home/End"@, "Jump to first/last"@),
            ],
        },
        global_keys(),
    ]
}

/// The keys of a resource table.
pub open spec fn resource_keys() -> Seq<CategoryModel> {
    seq![
        CategoryModel {
            label: "Navigation"@,
            entries: seq![
                ("j/k"@, "Scroll table rows"@),
                ("PgUp/Dn"@, "Jump half page"@),
                ("Home/End"@, "Jump to first/last"@),
            ],
        },
        CategoryModel {
            label: "Resource Actions"@,
            entries: seq![
                ("Enter/d"@, "Describe resource (YAML)"@),
                ("e"@, "Edit resource (YAML editor)"@),
                ("Ctrl+d"@, "Delete resource"@),
                ("l"@, "View logs (pods only)"@),
                ("s"@, "Shell exec (pods only)"@),
                ("Shift+f"@, "Port-forward (svc/pod)"@),
            ],
        },
        CategoryModel {
            label: "View Switching"@,
            entries: seq![
                (":"@, "Command mode (any resource)"@),
                ("/"@, "Filter by name/namespace"@),
                ("p d s c n e"@, "Legacy resource shortcuts"@),
            ],
        },
        global_keys(),
    ]
}

/// The keys that work everywhere.
pub fn global_category() -> (r: KeyCategory)
    ensures
        r@ == global_keys(),
{
    let category = KeyCategory::new(
        "Global",
        vec![
            KeyEntry::new("q/Ctrl+C", "Quit"),
            KeyEntry::new("Tab", "Switch panel (Sidebar ↔ Center)"),
            KeyEntry::new("Shift+Tab", "Switch panel (reverse)"),
            KeyEntry::new("1/2", "Switch tab (Resources/Top)"),
            KeyEntry::new("/", "Search (filter)"),
            KeyEntry::new(":", "Command mode"),
            KeyEntry::new("ESC", "Clear filter / close overlay"),
            KeyEntry::new("r", "Force refresh"),
            KeyEntry::new("?", "Toggle this help"),
        ],
    );
    proof {
        assert(category@ =~= global_keys());
    }
    category
}

/// The keys while a search is typed.
pub fn search_categories() -> (r: Vec<KeyCategory>)
    ensures
        categories_model(r@) == search_keys(),
{
    let first = KeyCategory::new(
        "Search Mode",
        vec![
            KeyEntry::new("<type>", "Filter by name/namespace"),
            KeyEntry::new("Enter", "Confirm search"),
            KeyEntry::new("ESC", "Cancel search"),
            KeyEntry::new("Backspace", "Delete character"),
        ],
    );
    let all = vec![first, global_category()];
    proof {
        assert(first@ =~= search_keys()[0]);
        assert(categories_model(all@) =~= search_keys());
    }
    all
}

/// The keys while a command is typed.
pub fn command_mode_categories() -> (r: Vec<KeyCategory>)
    ensures
        categories_model(r@) == command_keys(),
{
    let first = KeyCategory::new(
        "Command Mode",
        vec![
            KeyEntry::new("<type>", "Resource type (e.g. pods, deploy)"),
            KeyEntry::new("Tab", "Accept suggestion"),
            KeyEntry::new("↑/↓", "Navigate suggestions"),
            KeyEntry::new("Enter", "Execute command"),
            KeyEntry::new("ESC", "Cancel"),
            KeyEntry::new("Backspace", "Delete character"),
        ],
    );
    let all = vec![first, global_category()];
    proof {
        assert(first@ =~= command_keys()[0]);
        assert(categories_model(all@) =~= command_keys());
    }
    all
}

/// The keys of the sidebar.
pub fn sidebar_categories() -> (r: Vec<KeyCategory>)
    ensures
        categories_model(r@) == sidebar_keys(),
{
    let first = KeyCategory::new(
        "Sidebar Navigation",
        vec![
            KeyEntry::new("j/k", "Move cursor (no selection)"),
            KeyEntry::new("PgUp/Dn", "Jump half page"),
            KeyEntry::new("Home/End", "Jump to first/last"),
            KeyEntry::new("h/l", "Collapse / Expand"),
            KeyEntry::new("Enter", "Select cluster/namespace"),
        ],
    );
    let all = vec![first, global_category()];
    proof {
        assert(first@ =~= sidebar_keys()[0]);
        assert(categories_model(all@) =~= sidebar_keys());
    }
    all
}

/// The keys of the node view.
pub fn top_categories() -> (r: Vec<KeyCategory>)
    ensures
        categories_model(r@) == top_keys(),
{
    let first = KeyCategory::new(
        "Top — Node Resources",
        vec![
            KeyEntry::new("j/k", "Scroll nodes"),
            KeyEntry::new("PgUp/Dn", "Jump half page"),
            KeyEntry::new("Home/End", "Jump to first/last"),
        ],
    );
    let all = vec![first, global_category()];
    proof {
        assert(first@ =~= top_keys()[0]);
        assert(categories_model(all@) =~= top_keys());
    }
    all
}

/// The keys of a resource table.
pub fn resource_categories(view_label: &str) -> (r: Vec<KeyCategory>)
    ensures
        categories_model(r@) == resource_keys(),
{
    let first = KeyCategory::new(
        "Navigation",
        vec![
            KeyEntry::new("j/k", "Scroll table rows"),
            KeyEntry::new("PgUp/Dn", "Jump half page"),
            KeyEntry::new("Home/End", "Jump to first/last"),
        ],
    );
    let second = KeyCategory::new(
        "Resource Actions",
        vec![
            KeyEntry::new("Enter/d", "Describe resource (YAML)"),
            KeyEntry::new("e", "Edit resource (YAML editor)"),
            KeyEntry::new("Ctrl+d", "Delete resource"),
            KeyEntry::new("l", "View logs (pods only)"),
            KeyEntry::new("s", "Shell exec (pods only)"),
            KeyEntry::new("Shift+f", "Port-forward (svc/pod)"),
        ],
    );
    let third = KeyCategory::new(
        "View Switching",
        vec![
            KeyEntry::new(":", "Command mode (any resource)"),
            KeyEntry::new("/", "Filter by name/namespace"),
            KeyEntry::new("p d s c n e", "Legacy resource shortcuts"),
        ],
    );
    let all = vec![first, second, third, global_category()];
    proof {
        assert(first@ =~= resource_keys()[0]);
        assert(second@ =~= resource_keys()[1]);
        assert(third@ =~= resource_keys()[2]);
        assert(categories_model(all@) =~= resource_keys());
    }
    all
}

/// The help of every mode ends with the keys that work everywhere.
pub proof fn law_global_keys_last(mode: ActiveMode)
    ensures
        mode_categories(mode).len() >= 2,
        mode_categories(mode).last() == global_keys(),
        mode_categories(mode).last().entries.len() > 0,
{
}

// ---------------------------------------------------------------------------
// Columns
// ---------------------------------------------------------------------------

/// The heading of a group.
pub open spec fn header_line(label: Seq<char>) -> Seq<SpanModel> {
    line_of_span(" "@ + label + " "@, bold(Color::BrightYellow))
}

/// The line of a key.
pub open spec fn entry_line(e: (Seq<char>, Seq<char>)) -> Seq<SpanModel> {
    seq![
        span("  "@ + padded(e.0, 12), colored(Color::BrightAqua)),
        span(e.1, colored(Color::Fg)),
    ]
}

/// The lines of a group.
pub open spec fn category_section(c: CategoryModel) -> Seq<Seq<SpanModel>> {
    seq![header_line(c.label), blank_line()] + c.entries.map_values(
        |e: (Seq<char>, Seq<char>)| entry_line(e),
    )
}

/// Groups one below the other, with an empty line between them.
pub open spec fn single_column(cats: Seq<CategoryModel>) -> Seq<Seq<SpanModel>>
    decreases cats.len(),
{
    if cats.len() == 0 {
        Seq::empty()
    } else {
        single_column(cats.drop_last()) + (if cats.len() > 1 {
            seq![blank_line()]
        } else {
            Seq::empty()
        }) + category_section(cats.last())
    }
}

/// How many lines groups take, without the empty lines between them.
pub open spec fn total_lines(cats: Seq<CategoryModel>) -> nat
    decreases cats.len(),
{
    if cats.len() == 0 {
        0
    } else {
        total_lines(cats.drop_last()) + category_lines(cats.last())
    }
}

/// The least number of groups, from `k` on, that takes half of all lines.
pub open spec fn half_at(cats: Seq<CategoryModel>, k: int) -> int
    decreases cats.len() - k,
{
    if k >= cats.len() || total_lines(cats.take(k)) >= total_lines(cats) / 2 {
        k
    } else {
        half_at(cats, k + 1)
    }
}

/// How many groups stand on the left: about half of the lines, and where there
/// are two groups or more, not all.
pub open spec fn left_count(cats: Seq<CategoryModel>) -> int {
    let k = half_at(cats, 1);
    if k >= cats.len() && cats.len() > 1 {
        cats.len() - 1
    } else {
        k
    }
}

/// What stands left in a row of two columns.
pub open spec fn left_part(left: Seq<Seq<SpanModel>>, row: int, width: nat) -> Seq<SpanModel> {
    if row < left.len() {
        let room = room_left(width, plain_text(left[row]));
        left[row] + (if room > 0 {
            seq![span(repeated(' ', room), unstyled())]
        } else {
            Seq::empty()
        })
    } else {
        seq![span(repeated(' ', width), unstyled())]
    }
}

/// What stands right in a row of two columns.
pub open spec fn right_part(right: Seq<Seq<SpanModel>>, row: int) -> Seq<SpanModel> {
    if row < right.len() {
        right[row]
    } else {
        Seq::empty()
    }
}

/// Two columns side by side.
pub open spec fn side_by_side(
    left: Seq<Seq<SpanModel>>,
    right: Seq<Seq<SpanModel>>,
    width: nat,
) -> Seq<Seq<SpanModel>> {
    Seq::new(
        greater(left.len() as int, right.len() as int) as nat,
        |row: int|
            left_part(left, row, width).push(span(" │ "@, colored(Color::Bg3))) + right_part(
                right,
                row,
            ),
    )
}

/// Groups in two columns.
pub open spec fn two_columns(cats: Seq<CategoryModel>, width: nat) -> Seq<Seq<SpanModel>> {
    if cats.len() == 0 {
        Seq::empty()
    } else {
        side_by_side(
            single_column(cats.take(left_count(cats))),
            single_column(cats.skip(left_count(cats))),
            width,
        )
    }
}

/// What stands below the keys.
pub open spec fn footer(has_active_filter: bool) -> Seq<Seq<SpanModel>> {
    seq![
        blank_line(),
        line_of_span(
            if has_active_filter {
                "  Press ESC to clear filter, ? to close"@
            } else {
                "  Press ESC or ? to close"@
            },
            colored(Color::Fg4),
        ),
        blank_line(),
        line_of_span(
            "  Inspired by k9s (github.com/derailed/k9s)"@,
            colored(Color::DarkGray),
        ),
    ]
}

/// The lines of the help in one column.
pub open spec fn help_lines(mode: ActiveMode, has_active_filter: bool) -> Seq<Seq<SpanModel>> {
    single_column(mode_categories(mode)) + footer(has_active_filter)
}

/// How many lines groups one below the other take.
proof fn lemma_column_len(cats: Seq<CategoryModel>)
    ensures
        single_column(cats).len() == total_lines(cats) + less(cats.len() as int, 1),
    decreases cats.len(),
{
    if cats.len() > 0 {
        lemma_column_len(cats.drop_last());
    }
}

/// The lines of groups that are split in two.
proof fn lemma_total_split(cats: Seq<CategoryModel>, k: int)
    requires
        0 <= k <= cats.len(),
    ensures
        total_lines(cats) == total_lines(cats.take(k)) + total_lines(cats.skip(k)),
    decreases cats.len() - k,
{
    if k == cats.len() {
        assert(cats.take(k) =~= cats);
        assert(cats.skip(k) =~= Seq::empty());
    } else {
        lemma_total_split(cats.drop_last(), k);
        assert(cats.drop_last().take(k) =~= cats.take(k));
        assert(cats.drop_last().skip(k) =~= cats.skip(k).drop_last());
    }
}

/// The left column holds a group, and all of them only if there is just one.
proof fn lemma_half_at(cats: Seq<CategoryModel>, k: int)
    requires
        1 <= k <= cats.len(),
    ensures
        k <= half_at(cats, k) <= cats.len(),
    decreases cats.len() - k,
{
    if k < cats.len() && total_lines(cats.take(k)) < total_lines(cats) / 2 {
        lemma_half_at(cats, k + 1);
    }
}

/// How many lines a mode's help has at most.
proof fn lemma_help_len(mode: ActiveMode)
    ensures
        single_column(mode_categories(mode)).len() <= 60,
{
    lemma_column_len(mode_categories(mode));
    let cats = mode_categories(mode);
    reveal_with_fuel(total_lines, 5);
    assert(cats.drop_last().last() == cats[cats.len() - 2]);
    if cats.len() == 4 {
        assert(cats.drop_last().drop_last().last() == cats[1]);
        assert(cats.drop_last().drop_last().drop_last().last() == cats[0]);
    }
}

/// Two columns have no more lines than one.
pub proof fn law_two_columns_no_longer(cats: Seq<CategoryModel>, width: nat)
    ensures
        two_columns(cats, width).len() <= single_column(cats).len(),
{
    if cats.len() > 0 {
        lemma_half_at(cats, 1);
        let k = left_count(cats);
        lemma_total_split(cats, k);
        lemma_column_len(cats);
        lemma_column_len(cats.take(k));
        lemma_column_len(cats.skip(k));
    }
}

/// How many keys groups hold.
pub open spec fn total_entries(cats: Seq<CategoryModel>) -> nat
    decreases cats.len(),
{
    if cats.len() == 0 {
        0
    } else {
        total_entries(cats.drop_last()) + cats.last().entries.len()
    }
}

/// The test whether a line is that of a key.
pub open spec fn is_entry_line() -> spec_fn(Seq<SpanModel>) -> bool {
    |l: Seq<SpanModel>| l.len() > 0 && l[0].style == colored(Color::BrightAqua)
}

/// Counting in two lists one after the other.
proof fn lemma_count_add(
    a: Seq<Seq<SpanModel>>,
    b: Seq<Seq<SpanModel>>,
    keep: spec_fn(Seq<SpanModel>) -> bool,
)
    ensures
        count(a + b, keep) == count(a, keep) + count(b, keep),
    decreases b.len(),
{
    if b.len() == 0 {
        assert(a + b =~= a);
    } else {
        assert((a + b).drop_last() =~= a + b.drop_last());
        lemma_count_add(a, b.drop_last(), keep);
    }
}

/// Every line of a key is one.
proof fn lemma_entries_counted(entries: Seq<(Seq<char>, Seq<char>)>)
    ensures
        count(
            entries.map_values(|e: (Seq<char>, Seq<char>)| entry_line(e)),
            is_entry_line(),
        ) == entries.len(),
    decreases entries.len(),
{
    let show = |e: (Seq<char>, Seq<char>)| entry_line(e);
    if entries.len() > 0 {
        lemma_entries_counted(entries.drop_last());
        assert(entries.map_values(show).drop_last() =~= entries.drop_last().map_values(show));
        assert(entries.map_values(show).last() == entry_line(entries.last()));
    }
}

/// One column has as many lines with a key as the groups have keys.
pub proof fn law_every_key_shown(cats: Seq<CategoryModel>)
    ensures
        count(single_column(cats), is_entry_line()) == total_entries(cats),
    decreases cats.len(),
{
    if cats.len() > 0 {
        let keep = is_entry_line();
        let c = cats.last();
        let gap = if cats.len() > 1 {
            seq![blank_line()]
        } else {
            Seq::empty()
        };
        law_every_key_shown(cats.drop_last());
        lemma_entries_counted(c.entries);
        let head = seq![header_line(c.label), blank_line()];
        let entries = c.entries.map_values(|e: (Seq<char>, Seq<char>)| entry_line(e));
        lemma_count_add(single_column(cats.drop_last()), gap, keep);
        lemma_count_add(single_column(cats.drop_last()) + gap, category_section(c), keep);
        lemma_count_add(head, entries, keep);
        reveal_with_fuel(count, 4);
        assert(head.drop_last() =~= seq![header_line(c.label)]);
        assert(head.drop_last().drop_last() =~= Seq::empty());
        if cats.len() > 1 {
            assert(gap.drop_last() =~= Seq::empty());
        }
    }
}

// ---------------------------------------------------------------------------
// The overlay
// ---------------------------------------------------------------------------

/// The help overlay.
#[derive(Debug)]
pub struct HelpOverlay {
    pub visible: bool,
    /// How many lines are scrolled past.
    pub scroll_offset: u16,
    /// How many lines were visible when it was last drawn.
    pub viewport_height: u16,
    /// What was in use when it was opened.
    pub mode: ActiveMode,
}

/// How far the help can be scrolled.
pub open spec fn max_scroll(o: HelpOverlay) -> int {
    less(help_lines(o.mode, false).len() as int, o.viewport_height as int)
}

/// Half of what is visible, but at least one line.
pub open spec fn half_page(viewport_height: u16) -> int {
    greater(viewport_height as int / 2, 1)
}

impl HelpOverlay {
    /// A hidden overlay.
    pub fn new() -> (r: Self)
        ensures
            r == (HelpOverlay {
                visible: false,
                scroll_offset: 0,
                viewport_height: 0,
                mode: ActiveMode::Sidebar,
            }),
    {
        HelpOverlay {
            visible: false,
            scroll_offset: 0,
            viewport_height: 0,
            mode: ActiveMode::Sidebar,
        }
    }

    /// Closes the overlay if it is open, else opens it for a mode.
    pub fn toggle(&mut self, current_mode: ActiveMode)
        ensures
            *final(self) == if old(self).visible {
                HelpOverlay { visible: false, scroll_offset: 0, ..*old(self) }
            } else {
                HelpOverlay {
                    visible: true,
                    scroll_offset: 0,
                    mode: current_mode,
                    ..*old(self)
                }
            },
    {
        if self.visible {
            self.close();
        } else {
            self.open(current_mode);
        }
    }

    /// Opens the overlay for a mode, at its top.
    pub fn open(&mut self, mode: ActiveMode)
        ensures
            *final(self) == (HelpOverlay { visible: true, scroll_offset: 0, mode, ..*old(self) }),
    {
        self.visible = true;
        self.scroll_offset = 0;
        self.mode = mode;
    }

    /// Closes the overlay.
    pub fn close(&mut self)
        ensures
            *final(self) == (HelpOverlay { visible: false, scroll_offset: 0, ..*old(self) }),
    {
        self.visible = false;
        self.scroll_offset = 0;
    }

    /// Scrolls up by a line.
    pub fn scroll_up(&mut self)
        ensures
            final(self).scroll_offset == less(old(self).scroll_offset as int, 1),
            *final(self) == (HelpOverlay {
                scroll_offset: final(self).scroll_offset,
                ..*old(self)
            }),
            old(self).scroll_offset <= max_scroll(*old(self)) ==> final(self).scroll_offset
                <= max_scroll(*final(self)),
    {
        self.scroll_offset = minus(self.scroll_offset, 1);
    }

    /// Scrolls down by a line, as far as there is more.
    pub fn scroll_down(&mut self)
        ensures
            final(self).scroll_offset == if old(self).scroll_offset < max_scroll(*old(self)) {
                old(self).scroll_offset + 1
            } else {
                old(self).scroll_offset as int
            },
            *final(self) == (HelpOverlay {
                scroll_offset: final(self).scroll_offset,
                ..*old(self)
            }),
            old(self).scroll_offset <= max_scroll(*old(self)) ==> final(self).scroll_offset
                <= max_scroll(*final(self)),
    {
        let max: u16 = self.max_scroll();
        if self.scroll_offset < max {
            self.scroll_offset = self.scroll_offset + 1;
        }
    }

    /// Scrolls up by half of what is visible.
    pub fn page_up(&mut self)
        ensures
            final(self).scroll_offset == less(
                old(self).scroll_offset as int,
                half_page(old(self).viewport_height),
            ),
            *final(self) == (HelpOverlay {
                scroll_offset: final(self).scroll_offset,
                ..*old(self)
            }),
            old(self).scroll_offset <= max_scroll(*old(self)) ==> final(self).scroll_offset
                <= max_scroll(*final(self)),
    {
        let jump: u16 = at_least(self.viewport_height / 2, 1);
        self.scroll_offset = minus(self.scroll_offset, jump);
    }

    /// Scrolls down by half of what is visible, as far as there is more.
    pub fn page_down(&mut self)
        requires
            old(self).scroll_offset + half_page(old(self).viewport_height) <= u16::MAX,
        ensures
            final(self).scroll_offset == lesser(
                old(self).scroll_offset + half_page(old(self).viewport_height),
                max_scroll(*old(self)),
            ),
            *final(self) == (HelpOverlay {
                scroll_offset: final(self).scroll_offset,
                ..*old(self)
            }),
            old(self).scroll_offset <= max_scroll(*old(self)) ==> final(self).scroll_offset
                <= max_scroll(*final(self)),
    {
        let max: u16 = self.max_scroll();
        let jump: u16 = at_least(self.viewport_height / 2, 1);
        self.scroll_offset = at_most(self.scroll_offset + jump, max);
    }

    /// Scrolls to the top.
    pub fn jump_home(&mut self)
        ensures
            *final(self) == (HelpOverlay { scroll_offset: 0, ..*old(self) }),
    {
        self.scroll_offset = 0;
    }

    /// Scrolls to the end.
    pub fn jump_end(&mut self)
        ensures
            final(self).scroll_offset == max_scroll(*old(self)),
            *final(self) == (HelpOverlay {
                scroll_offset: final(self).scroll_offset,
                ..*old(self)
            }),
            old(self).scroll_offset <= max_scroll(*old(self)) ==> final(self).scroll_offset
                <= max_scroll(*final(self)),
    {
        self.scroll_offset = self.max_scroll();
    }

    /// The lines of the help in one column.
    pub fn build_lines(&self, has_active_filter: bool) -> (r: Vec<Line>)
        ensures
            lines_model(r@) == help_lines(self.mode, has_active_filter),
            r@.len() <= 64,
    {
        proof {
            lemma_help_len(self.mode);
        }
        let categories = self.mode.categories();
        let mut lines = HelpOverlay::render_categories_single_column(categories.as_slice());
        add_footer(&mut lines, has_active_filter);
        proof {
            assert(lines_model(lines@).len() == lines@.len());
        }
        lines
    }

    /// Groups one below the other.
    pub fn render_categories_single_column(categories: &[KeyCategory]) -> (r: Vec<Line>)
        ensures
            lines_model(r@) == single_column(categories_model(categories@)),
    {
        proof {
            assert(categories@.subrange(0, categories@.len() as int) =~= categories@);
        }
        render_range(categories, 0, categories.len())
    }

    /// Groups in two columns, the left one as wide as is asked for.
    pub fn render_categories_two_column(categories: &[KeyCategory], col_width: u16) -> (r: Vec<
        Line,
    >)
        requires
            total_lines(categories_model(categories@)) <= usize::MAX,
        ensures
            lines_model(r@) == two_columns(categories_model(categories@), col_width as nat),
    {
        let ghost cats = categories_model(categories@);
        if categories.len() == 0 {
            let none: Vec<Line> = Vec::new();
            proof {
                assert(lines_model(none@) =~= two_columns(cats, col_width as nat));
            }
            return none;
        }
        let split: usize = split_point(categories);
        let left = render_range(categories, 0, split);
        let right = render_range(categories, split, categories.len());
        proof {
            assert(categories_model(categories@.subrange(0, split as int)) =~= cats.take(
                split as int,
            ));
            assert(categories_model(categories@.subrange(split as int, categories@.len() as int))
                =~= cats.skip(split as int));
        }
        merge_columns(&left, &right, col_width as usize)
    }

    /// The text of a line.
    pub fn line_plain_text(line: &Line) -> (r: String)
        ensures
            r@ == plain_text(line@),
    {
        line.plain_text()
    }

    /// The heading of a group.
    pub fn section_header(label: &str) -> (r: Line)
        ensures
            r@ == header_line(label@),
    {
        Line::of(framed(" ", label, " "), Style::bold(Color::BrightYellow))
    }

    /// The line of a key.
    pub fn key_line(entry: &KeyEntry) -> (r: Line)
        ensures
            r@ == entry_line(entry@),
    {
        let mut key = "  ".to_owned();
        key.append(pad(entry.key, 12).as_str());
        let mut line = Line::of(key, Style::colored(Color::BrightAqua));
        line.add_styled(entry.desc.to_owned(), Style::colored(Color::Fg));
        proof {
            assert(line@ =~= entry_line(entry@));
        }
        line
    }

    /// How many lines the help has.
    pub fn content_line_count(&self) -> (r: u16)
        ensures
            r == help_lines(self.mode, false).len(),
    {
        let lines = self.build_lines(false);
        proof {
            assert(lines_model(lines@).len() == lines@.len());
        }
        lines.len() as u16
    }

    fn max_scroll(&self) -> (r: u16)
        ensures
            r == max_scroll(*self),
    {
        minus(self.content_line_count(), self.viewport_height)
    }
}

/// Adds what stands below the keys.
fn add_footer(lines: &mut Vec<Line>, has_active_filter: bool)
    ensures
        lines_model(final(lines)@) == lines_model(old(lines)@) + footer(has_active_filter),
{
    let ghost before = lines_model(lines@);
    lines.push(Line::blank());
    let text = if has_active_filter {
        "  Press ESC to clear filter, ? to close"
    } else {
        "  Press ESC or ? to close"
    };
    lines.push(Line::of(text.to_owned(), Style::colored(Color::Fg4)));
    lines.push(Line::blank());
    lines.push(
        Line::of(
            "  Inspired by k9s (github.com/derailed/k9s)".to_owned(),
            Style::colored(Color::DarkGray),
        ),
    );
    proof {
        assert(lines_model(lines@) =~= before + footer(has_active_filter));
    }
}

/// Some of the groups one below the other.
fn render_range(categories: &[KeyCategory], from: usize, to: usize) -> (r: Vec<Line>)
    requires
        from <= to <= categories@.len(),
    ensures
        lines_model(r@) == single_column(
            categories_model(categories@.subrange(from as int, to as int)),
        ),
{
    let mut lines: Vec<Line> = Vec::new();
    let mut i: usize = from;
    proof {
        assert(lines_model(lines@) =~= single_column(
            categories_model(categories@.subrange(from as int, from as int)),
        ));
    }
    while i < to
        invariant
            from <= i <= to <= categories@.len(),
            lines_model(lines@) == single_column(
                categories_model(categories@.subrange(from as int, i as int)),
            ),
        decreases to - i,
    {
        let ghost before = lines_model(lines@);
        let ghost cats = categories_model(categories@.subrange(from as int, i + 1));
        proof {
            assert(cats.drop_last() =~= categories_model(
                categories@.subrange(from as int, i as int),
            ));
            assert(cats.last() == categories@[i as int]@);
        }
        if i > from {
            lines.push(Line::blank());
        }
        let ghost spaced = lines_model(lines@);
        proof {
            assert(spaced =~= before + (if cats.len() > 1 {
                seq![blank_line()]
            } else {
                Seq::empty()
            }));
        }
        add_category(&mut lines, &categories[i]);
        i += 1;
    }
    lines
}

/// Adds the lines of a group.
fn add_category(lines: &mut Vec<Line>, category: &KeyCategory)
    ensures
        lines_model(final(lines)@) == lines_model(old(lines)@) + category_section(category@),
{
    let ghost before = lines_model(lines@);
    let ghost show = |e: (Seq<char>, Seq<char>)| entry_line(e);
    let ghost head = seq![header_line(category@.label), blank_line()];
    lines.push(HelpOverlay::section_header(category.label));
    lines.push(Line::blank());
    let mut i: usize = 0;
    proof {
        assert(lines_model(lines@) =~= before + (head + category@.entries.take(0).map_values(
            show,
        )));
    }
    while i < category.entries.len()
        invariant
            i <= category.entries@.len(),
            category.entries@.len() == category@.entries.len(),
            show == |e: (Seq<char>, Seq<char>)| entry_line(e),
            lines_model(lines@) == before + (head + category@.entries.take(i as int).map_values(
                show,
            )),
        decreases category.entries@.len() - i,
    {
        lines.push(HelpOverlay::key_line(&category.entries[i]));
        proof {
            let shown = category@.entries.take(i as int).map_values(show);
            let next = category@.entries.take(i + 1).map_values(show);
            assert(next =~= shown.push(entry_line(category@.entries[i as int])));
            assert(before + (head + shown.push(entry_line(category@.entries[i as int])))
                =~= (before + (head + shown)).push(entry_line(category@.entries[i as int])));
        }
        i += 1;
    }
    proof {
        assert(category@.entries.take(i as int) =~= category@.entries);
    }
}

/// How many groups stand on the left.
fn split_point(categories: &[KeyCategory]) -> (r: usize)
    requires
        categories@.len() > 0,
        total_lines(categories_model(categories@)) <= usize::MAX,
    ensures
        r == left_count(categories_model(categories@)),
        1 <= r <= categories@.len(),
{
    let ghost cats = categories_model(categories@);
    let n: usize = categories.len();
    let mut total: usize = 0;
    let mut i: usize = 0;
    proof {
        lemma_half_at(cats, 1);
    }
    while i < n
        invariant
            i <= n == categories@.len(),
            cats == categories_model(categories@),
            total_lines(cats) <= usize::MAX,
            total == total_lines(cats.take(i as int)),
        decreases n - i,
    {
        proof {
            lemma_total_split(cats, i + 1);
            assert(cats.take(i + 1).drop_last() =~= cats.take(i as int));
            assert(cats.take(i + 1).last() == categories@[i as int]@);
        }
        total = total + categories[i].rendered_line_count();
        i += 1;
    }
    proof {
        assert(cats.take(n as int) =~= cats);
    }
    let half: usize = total / 2;
    let mut running: usize = 0;
    let mut k: usize = 0;
    let mut done = false;
    while k < n && !done
        invariant
            k <= n == categories@.len(),
            n > 0,
            cats == categories_model(categories@),
            total_lines(cats) <= usize::MAX,
            half == total_lines(cats) / 2,
            running == total_lines(cats.take(k as int)),
            k == 0 ==> !done,
            done ==> half_at(cats, 1) == k,
            !done ==> half_at(cats, 1) == half_at(cats, k + 1) || (k == n && half_at(cats, 1) == k),
        decreases n - k,
    {
        proof {
            lemma_total_split(cats, k + 1);
            assert(cats.take(k + 1).drop_last() =~= cats.take(k as int));
            assert(cats.take(k + 1).last() == categories@[k as int]@);
        }
        running = running + categories[k].rendered_line_count();
        k += 1;
        if running >= half {
            done = true;
        }
    }
    if k >= n && n > 1 {
        n - 1
    } else {
        k
    }
}

/// Sets two columns side by side.
fn merge_columns(left: &Vec<Line>, right: &Vec<Line>, width: usize) -> (r: Vec<Line>)
    ensures
        lines_model(r@) == side_by_side(lines_model(left@), lines_model(right@), width as nat),
{
    let rows: usize = if left.len() >= right.len() {
        left.len()
    } else {
        right.len()
    };
    let ghost all = side_by_side(lines_model(left@), lines_model(right@), width as nat);
    let mut merged: Vec<Line> = Vec::new();
    let mut row: usize = 0;
    proof {
        assert(lines_model(merged@) =~= all.take(0));
    }
    while row < rows
        invariant
            row <= rows == all.len(),
            all == side_by_side(lines_model(left@), lines_model(right@), width as nat),
            lines_model(merged@) == all.take(row as int),
        decreases rows - row,
    {
        let mut line = Line::blank();
        if row < left.len() {
            line.add_line(&left[row]);
            let room: usize = count_room_left(width, left[row].plain_text().as_str());
            if room > 0 {
                line.add_styled(repeat(' ', room), Style { fg: None, bold: false });
            }
        } else {
            line.add_styled(repeat(' ', width), Style { fg: None, bold: false });
        }
        proof {
            assert(line@ =~= left_part(lines_model(left@), row as int, width as nat));
        }
        line.add_styled(" │ ".to_owned(), Style::colored(Color::Bg3));
        let ghost so_far = line@;
        if row < right.len() {
            line.add_line(&right[row]);
        }
        proof {
            assert(line@ =~= so_far + right_part(lines_model(right@), row as int));
            assert(line@ == all[row as int]);
            assert(all.take(row + 1) =~= all.take(row as int).push(all[row as int]));
        }
        merged.push(line);
        row += 1;
    }
    proof {
        assert(all.take(rows as int) =~= all);
    }
    merged
}

// ---------------------------------------------------------------------------
// Drawing
// ---------------------------------------------------------------------------

/// What is drawn of the help.
#[derive(Debug)]
pub struct HelpFrame {
    pub title: String,
    /// Where the popup stands, with its border.
    pub popup: Area,
    pub lines: Vec<Line>,
    /// How many lines are scrolled past.
    pub scroll: u16,
    /// Where it is marked that there is more above.
    pub above: Option<Area>,
    /// Where it is marked that there is more below.
    pub below: Option<Area>,
}

/// What is drawn of the help, as a value.
#[verifier::ext_equal]
pub struct FrameModel {
    pub title: Seq<char>,
    pub popup: Area,
    pub lines: Seq<Seq<SpanModel>>,
    pub scroll: u16,
    pub above: Option<Area>,
    pub below: Option<Area>,
}

impl View for HelpFrame {
    type V = FrameModel;

    open spec fn view(&self) -> FrameModel {
        FrameModel {
            title: self.title@,
            popup: self.popup,
            lines: lines_model(self.lines@),
            scroll: self.scroll,
            above: self.above,
            below: self.below,
        }
    }
}

/// Whether the keys stand in two columns: the screen has 80 columns or more.
pub open spec fn is_wide(area: Area) -> bool {
    area.width >= 80
}

/// How wide the popup is.
pub open spec fn popup_width(area: Area) -> int {
    if is_wide(area) {
        lesser(80, less(area.width as int, 4))
    } else {
        greater(lesser(54, less(area.width as int, 4)), lesser(40, area.width as int))
    }
}

/// The lines of the popup.
pub open spec fn popup_lines(mode: ActiveMode, area: Area, has_active_filter: bool) -> Seq<
    Seq<SpanModel>,
> {
    (if is_wide(area) {
        two_columns(mode_categories(mode), (less(popup_width(area), 5) / 2) as nat)
    } else {
        single_column(mode_categories(mode))
    }) + footer(has_active_filter)
}

/// How high the popup is: as its lines need, but at least five lines and no
/// higher than the screen leaves room for.
pub open spec fn popup_height(area: Area, lines: int) -> int {
    lesser(lines + 2, greater(less(area.height as int, 2), 5))
}

/// The popup in the middle of the screen.
pub open spec fn popup_area(area: Area, lines: int) -> Area {
    let w = popup_width(area);
    let h = popup_height(area, lines);
    Area {
        x: (less(area.width as int, w) / 2) as u16,
        y: (less(area.height as int, h) / 2) as u16,
        width: w as u16,
        height: h as u16,
    }
}

/// Whether the marks that there is more find room: none is needed, or the screen
/// has a column for them.
pub open spec fn marks_fit(o: HelpOverlay, area: Area, has_active_filter: bool) -> bool {
    let f = help_frame(o, area, has_active_filter);
    area.width > 0 || (f.above is None && f.below is None)
}

/// What is drawn of the help.
pub open spec fn help_frame(o: HelpOverlay, area: Area, has_active_filter: bool) -> FrameModel {
    let lines = popup_lines(o.mode, area, has_active_filter);
    let popup = popup_area(area, lines.len() as int);
    let max = less(lines.len() as int, popup.height - 2);
    let scroll = lesser(o.scroll_offset as int, max);
    let right = popup.x + popup.width - 1;
    FrameModel {
        title: " Help — "@ + mode_name(o.mode) + " "@,
        popup,
        lines,
        scroll: scroll as u16,
        above: if scroll > 0 {
            Some(Area { x: right as u16, y: popup.y, width: 1, height: 1 })
        } else {
            None
        },
        below: if scroll < max {
            Some(
                Area {
                    x: right as u16,
                    y: (popup.y + popup.height - 1) as u16,
                    width: 1,
                    height: 1,
                },
            )
        } else {
            None
        },
    }
}

impl HelpOverlay {
    /// Lays the help out on the screen, and notes how many lines are visible.
    /// Nothing is drawn while the overlay is hidden.
    pub fn render(&mut self, area: Area, has_active_filter: bool) -> (r: Option<HelpFrame>)
        requires
            old(self).visible ==> marks_fit(*old(self), area, has_active_filter),
        ensures
            old(self).visible ==> r is Some && r->0@ == help_frame(
                *old(self),
                area,
                has_active_filter,
            ) && *final(self) == (HelpOverlay {
                viewport_height: (r->0@.popup.height - 2) as u16,
                ..*old(self)
            }),
            !old(self).visible ==> r is None && *final(self) == *old(self),
    {
        if !self.visible {
            return None;
        }
        let mode = self.mode.label();
        let categories = self.mode.categories();
        proof {
            assert(categories_model(categories@).len() == categories@.len());
            lemma_help_len(self.mode);
            lemma_column_len(mode_categories(self.mode));
            law_two_columns_no_longer(
                mode_categories(self.mode),
                (less(popup_width(area), 5) / 2) as nat,
            );
        }
        let wide = area.width >= 80;
        let room: u16 = minus(area.width, 4);
        let width: u16 = if wide {
            at_most(80, room)
        } else {
            at_least(at_most(54, room), at_most(40, area.width))
        };
        let mut lines = if wide {
            let column: u16 = minus(width, 5) / 2;
            HelpOverlay::render_categories_two_column(categories.as_slice(), column)
        } else {
            HelpOverlay::render_categories_single_column(categories.as_slice())
        };
        proof {
            assert(lines_model(lines@).len() == lines@.len());
        }
        add_footer(&mut lines, has_active_filter);
        proof {
            assert(lines_model(lines@).len() == lines@.len());
            assert(lines_model(lines@) == popup_lines(self.mode, area, has_active_filter));
        }
        let content: u16 = lines.len() as u16;
        let height: u16 = at_most(content + 2, at_least(minus(area.height, 2), 5));
        let x: u16 = minus(area.width, width) / 2;
        let y: u16 = minus(area.height, height) / 2;
        let popup = Area { x, y, width, height };
        let inner: u16 = minus(height, 2);
        let max: u16 = minus(content, inner);
        let scroll: u16 = at_most(self.scroll_offset, max);
        proof {
            let frame = help_frame(*self, area, has_active_filter);
            assert(frame.above is Some <==> scroll > 0);
            assert(frame.below is Some <==> scroll < max);
        }
        let above = if scroll > 0 {
            Some(Area { x: x + width - 1, y, width: 1, height: 1 })
        } else {
            None
        };
        let below = if scroll < max {
            Some(Area { x: x + width - 1, y: y + height - 1, width: 1, height: 1 })
        } else {
            None
        };
        self.viewport_height = inner;
        Some(
            HelpFrame {
                title: framed(" Help — ", mode.as_str(), " "),
                popup,
                lines,
                scroll,
                above,
                below,
            },
        )
    }
}

/// On a screen with room for it, the popup lies within the screen, and so do
/// the marks that there is more.
pub proof fn law_help_fits_screen(o: HelpOverlay, area: Area, has_active_filter: bool)
    requires
        area.width > 0,
        area.height >= 5,
    ensures
        ({
            let f = help_frame(o, area, has_active_filter);
            &&& f.popup.x + f.popup.width <= area.width
            &&& f.popup.y + f.popup.height <= area.height
            &&& f.above is Some ==> f.above->0.x < area.width && f.above->0.y < area.height
            &&& f.below is Some ==> f.below->0.x < area.width && f.below->0.y < area.height
            &&& f.scroll + less(f.popup.height as int, 2) <= greater(
                f.lines.len() as int,
                less(f.popup.height as int, 2),
            )
        }),
{
    lemma_help_len(o.mode);
    law_two_columns_no_longer(
        mode_categories(o.mode),
        (less(popup_width(area), 5) / 2) as nat,
    );
}

} // verus!
