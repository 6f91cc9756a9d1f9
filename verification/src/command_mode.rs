//! The command line: typing the name of a resource, with suggestions, completion
//! and a history.
use std::collections::VecDeque;
use vstd::prelude::*;
use crate::resource_registry::{
    found, fuzzy_match, law_matches_are_entries, FuzzyMatch, ResourceEntry, ResourceRegistry,
};
use crate::text::{
    behind_bytes, drop_bytes_of, has_prefix, join, joined, lemma_texts_push, lowercase, same,
    starts_with, text_bytes, texts, to_lowercase,
};

verus! {

broadcast use lemma_texts_push;

/// How many suggestions are shown at most.
pub const MAX_SUGGESTIONS: usize = 8;

/// How many commands are remembered at most.
pub const MAX_HISTORY: usize = 50;

/// A suggestion for what is being typed.
#[derive(Debug)]
pub struct Suggestion {
    /// The resource's plural.
    pub display: String,
    /// Its short names, or its singular where it has none.
    pub hint: String,
    pub api_group: String,
    pub score: u32,
    pub namespaced: bool,
    /// Where it stands in the registry.
    pub entry_idx: usize,
}

/// A suggestion as a value.
#[verifier::ext_equal]
pub struct SuggestionModel {
    pub display: Seq<char>,
    pub hint: Seq<char>,
    pub api_group: Seq<char>,
    pub score: u32,
    pub namespaced: bool,
    pub entry_idx: usize,
}

impl View for Suggestion {
    type V = SuggestionModel;

    open spec fn view(&self) -> SuggestionModel {
        SuggestionModel {
            display: self.display@,
            hint: self.hint@,
            api_group: self.api_group@,
            score: self.score,
            namespaced: self.namespaced,
            entry_idx: self.entry_idx,
        }
    }
}

/// Suggestions as values.
pub open spec fn suggestions_model(s: Seq<Suggestion>) -> Seq<SuggestionModel> {
    s.map_values(|x: Suggestion| x@)
}

/// The command line.
#[derive(Debug)]
pub struct CommandMode {
    pub active: bool,
    /// What is typed.
    pub input: String,
    /// What is typed, in lower case.
    pub input_lower: String,
    pub suggestions: Vec<Suggestion>,
    pub selected_suggestion: Option<usize>,
    /// The command that was entered and not taken yet.
    pub submitted: Option<String>,
    /// The commands that were entered, the latest last.
    pub history: VecDeque<String>,
    /// The command of the history that is shown.
    pub history_cursor: Option<usize>,
    /// What was typed before the history was browsed.
    pub saved_input: String,
    /// What was typed before it was completed.
    pub tab_prefix: Option<String>,
    /// The suggestion that completes it.
    pub tab_cycle_index: usize,
}

/// The command line as a value.
#[verifier::ext_equal]
pub struct CommandModel {
    pub active: bool,
    pub input: Seq<char>,
    pub input_lower: Seq<char>,
    pub suggestions: Seq<SuggestionModel>,
    pub selected: Option<usize>,
    pub submitted: Option<Seq<char>>,
    pub history: Seq<Seq<char>>,
    pub history_cursor: Option<usize>,
    pub saved_input: Seq<char>,
    pub tab_prefix: Option<Seq<char>>,
    pub tab_index: usize,
}

/// A text that may be missing, as a value.
pub open spec fn text_view(t: Option<String>) -> Option<Seq<char>> {
    match t {
        Some(s) => Some(s@),
        None => None,
    }
}

impl View for CommandMode {
    type V = CommandModel;

    open spec fn view(&self) -> CommandModel {
        CommandModel {
            active: self.active,
            input: self.input@,
            input_lower: self.input_lower@,
            suggestions: suggestions_model(self.suggestions@),
            selected: self.selected_suggestion,
            submitted: text_view(self.submitted),
            history: texts(self.history@),
            history_cursor: self.history_cursor,
            saved_input: self.saved_input@,
            tab_prefix: text_view(self.tab_prefix),
            tab_index: self.tab_cycle_index,
        }
    }
}

/// Whether no command stands next to itself.
pub open spec fn no_repeats(history: Seq<Seq<char>>) -> bool {
    forall|i: int, j: int|
        0 <= i && j == i + 1 && j < history.len() ==> #[trigger] history[i]
            != #[trigger] history[j]
}

impl CommandModel {
    /// Whether the command line is in order: what is typed is also there in lower
    /// case, there are not too many suggestions and commands, what is selected and
    /// shown exists, and no command of the history repeats the one before it.
    pub open spec fn wf(self) -> bool {
        &&& self.input_lower == lowercase(self.input)
        &&& self.suggestions.len() <= MAX_SUGGESTIONS
        &&& self.selected is Some ==> self.selected->0 < self.suggestions.len()
        &&& self.tab_index <= MAX_SUGGESTIONS
        &&& self.history.len() <= MAX_HISTORY
        &&& self.history_cursor is Some ==> self.history_cursor->0 < self.history.len()
        &&& no_repeats(self.history)
    }
}

// ---------------------------------------------------------------------------
// What happens
// ---------------------------------------------------------------------------

/// An empty command line.
pub open spec fn empty_line() -> CommandModel {
    CommandModel {
        active: false,
        input: Seq::empty(),
        input_lower: Seq::empty(),
        suggestions: Seq::empty(),
        selected: None,
        submitted: None,
        history: Seq::empty(),
        history_cursor: None,
        saved_input: Seq::empty(),
        tab_prefix: None,
        tab_index: 0,
    }
}

/// The command line with nothing typed, selected or browsed.
pub open spec fn cleared(m: CommandModel) -> CommandModel {
    CommandModel {
        input: Seq::empty(),
        input_lower: Seq::empty(),
        suggestions: Seq::empty(),
        selected: None,
        history_cursor: None,
        saved_input: Seq::empty(),
        ..m
    }
}

/// The command line outside of completion.
pub open spec fn uncycled(m: CommandModel) -> CommandModel {
    CommandModel { tab_prefix: None, tab_index: 0, ..m }
}

/// The command line after it was opened.
pub open spec fn activated(m: CommandModel) -> CommandModel {
    CommandModel { active: true, submitted: None, ..uncycled(cleared(m)) }
}

/// The command line after it was closed.
pub open spec fn deactivated(m: CommandModel) -> CommandModel {
    CommandModel { active: false, ..uncycled(cleared(m)) }
}

/// A suggestion for a match.
pub open spec fn suggestion_of(
    entries: Seq<ResourceEntry>) -> spec_fn(FuzzyMatch,
) -> SuggestionModel {
    |m: FuzzyMatch|
        {
            let e = entries[m.entry_idx as int];
            SuggestionModel {
                display: e.resource@,
                hint: if e.short_names@.len() > 0 {
                    joined(texts(e.short_names@), ", "@)
                } else {
                    e.singular_name@
                },
                api_group: if e.api_group@.len() == 0 {
                    "core"@
                } else {
                    e.api_group@
                },
                score: m.score,
                namespaced: e.namespaced,
                entry_idx: m.entry_idx,
            }
        }
}

/// The suggestions for what is typed.
pub open spec fn suggestions_for(entries: Seq<ResourceEntry>, lower: Seq<char>) -> Seq<
    SuggestionModel,
> {
    found(entries, lower, MAX_SUGGESTIONS as int).map_values(suggestion_of(entries))
}

/// A selection among a number of suggestions: one behind the last is the last.
pub open spec fn clamped(selected: Option<usize>, n: nat) -> Option<usize> {
    match selected {
        Some(i) => if i < n {
            Some(i)
        } else if n == 0 {
            None
        } else {
            Some((n - 1) as usize)
        },
        None => None,
    }
}

/// The command line with suggestions for what is typed.
pub open spec fn suggested(m: CommandModel, entries: Seq<ResourceEntry>) -> CommandModel {
    let suggestions = suggestions_for(entries, m.input_lower);
    CommandModel { suggestions, selected: clamped(m.selected, suggestions.len()), ..m }
}

/// The command line with something typed.
pub open spec fn with_input(m: CommandModel, input: Seq<char>) -> CommandModel {
    CommandModel { input, input_lower: lowercase(input), ..m }
}

/// The command line after a character was typed.
pub open spec fn typed(m: CommandModel, c: char, entries: Seq<ResourceEntry>) -> CommandModel {
    suggested(with_input(uncycled(m), m.input.push(c)), entries)
}

/// A text without its last character.
pub open spec fn shortened(s: Seq<char>) -> Seq<char> {
    if s.len() == 0 {
        s
    } else {
        s.drop_last()
    }
}

/// The command line after a character was removed.
pub open spec fn backspaced(m: CommandModel, entries: Seq<ResourceEntry>) -> CommandModel {
    let after = with_input(uncycled(m), shortened(m.input));
    if after.input.len() == 0 {
        CommandModel { suggestions: Seq::empty(), selected: None, ..after }
    } else {
        suggested(after, entries)
    }
}

/// The command line after the next suggestion was selected.
pub open spec fn next_selected(m: CommandModel) -> CommandModel {
    if m.suggestions.len() == 0 {
        uncycled(m)
    } else {
        CommandModel {
            selected: match m.selected {
                None => Some(0),
                Some(i) => if i + 1 < m.suggestions.len() {
                    Some((i + 1) as usize)
                } else {
                    Some((m.suggestions.len() - 1) as usize)
                },
            },
            ..uncycled(m)
        }
    }
}

/// The command line after the suggestion before was selected; before the first
/// there is none.
pub open spec fn prev_selected(m: CommandModel) -> CommandModel {
    if m.suggestions.len() == 0 {
        uncycled(m)
    } else {
        CommandModel {
            selected: match m.selected {
                None => None,
                Some(i) => if i == 0 {
                    None
                } else {
                    Some((i - 1) as usize)
                },
            },
            ..uncycled(m)
        }
    }
}

/// The command line with the suggestion at the position of completion.
pub open spec fn filled(m: CommandModel) -> CommandModel {
    if m.tab_index < m.suggestions.len() {
        CommandModel {
            selected: Some(m.tab_index),
            ..with_input(m, m.suggestions[m.tab_index as int].display)
        }
    } else {
        m
    }
}

/// How many suggestions completion goes round.
pub open spec fn cycle_len(m: CommandModel) -> int {
    if m.suggestions.len() == 0 {
        1
    } else {
        m.suggestions.len() as int
    }
}

/// The command line after completion by the next suggestion.
pub open spec fn completed(m: CommandModel) -> CommandModel {
    if m.suggestions.len() == 0 && m.tab_prefix is None {
        m
    } else if m.tab_prefix is Some {
        filled(CommandModel { tab_index: ((m.tab_index + 1) % cycle_len(m)) as usize, ..m })
    } else {
        filled(CommandModel { tab_prefix: Some(m.input), tab_index: 0, ..m })
    }
}

/// The command line after completion by the suggestion before.
pub open spec fn completed_back(m: CommandModel) -> CommandModel {
    if m.suggestions.len() == 0 && m.tab_prefix is None {
        m
    } else if m.tab_prefix is Some {
        filled(
            CommandModel {
                tab_index: if m.tab_index == 0 {
                    (cycle_len(m) - 1) as usize
                } else {
                    (m.tab_index - 1) as usize
                },
                ..m
            },
        )
    } else {
        filled(
            CommandModel {
                tab_prefix: Some(m.input),
                tab_index: (m.suggestions.len() - 1) as usize,
                ..m
            },
        )
    }
}

/// The command line after the selected suggestion was taken over.
pub open spec fn accepted(m: CommandModel, entries: Seq<ResourceEntry>) -> CommandModel {
    if m.selected is Some && m.selected->0 < m.suggestions.len() {
        CommandModel {
            selected: None,
            ..suggested(with_input(m, m.suggestions[m.selected->0 as int].display), entries)
        }
    } else {
        m
    }
}

/// The command that is entered: the selected suggestion, or what is typed.
pub open spec fn entered(m: CommandModel) -> Seq<char> {
    if m.selected is Some && m.selected->0 < m.suggestions.len() {
        m.suggestions[m.selected->0 as int].display
    } else {
        m.input
    }
}

/// The history after a command: one that repeats the latest is not added, and
/// the oldest one gives way where there are too many.
pub open spec fn remembered(history: Seq<Seq<char>>, command: Seq<char>) -> Seq<Seq<char>> {
    if history.len() > 0 && history.last() == command {
        history
    } else if history.len() >= MAX_HISTORY {
        history.push(command).skip(1)
    } else {
        history.push(command)
    }
}

/// Whether there is anything to enter.
pub open spec fn can_submit(m: CommandModel) -> bool {
    m.input.len() > 0 || m.selected is Some
}

/// The command line after entering.
pub open spec fn submitted(m: CommandModel) -> CommandModel {
    if can_submit(m) {
        CommandModel {
            active: false,
            submitted: Some(entered(m)),
            history: remembered(m.history, entered(m)),
            ..uncycled(cleared(m))
        }
    } else {
        deactivated(m)
    }
}

/// The command line that shows a command of the history.
pub open spec fn browsed(m: CommandModel, i: int, entries: Seq<ResourceEntry>) -> CommandModel {
    suggested(
        with_input(CommandModel { history_cursor: Some(i as usize), ..m }, m.history[i]),
        entries,
    )
}

/// The command line after going back in the history.
pub open spec fn older(m: CommandModel, entries: Seq<ResourceEntry>) -> CommandModel {
    let after = uncycled(m);
    if m.history.len() == 0 {
        after
    } else {
        match m.history_cursor {
            None => browsed(
                CommandModel { saved_input: m.input, ..after },
                m.history.len() - 1,
                entries,
            ),
            Some(i) => if i > 0 {
                browsed(after, i - 1, entries)
            } else {
                after
            },
        }
    }
}

/// The command line after going forward in the history; behind its end comes
/// what was typed before.
pub open spec fn newer(m: CommandModel, entries: Seq<ResourceEntry>) -> CommandModel {
    let after = uncycled(m);
    match m.history_cursor {
        None => after,
        Some(i) => if i + 1 < m.history.len() {
            browsed(after, i + 1, entries)
        } else {
            suggested(
                with_input(
                    CommandModel { history_cursor: None, saved_input: Seq::empty(), ..after },
                    m.saved_input,
                ),
                entries,
            )
        },
    }
}

/// Whether the command before the one that is shown is in the history.
pub open spec fn can_go_back(m: CommandModel) -> bool {
    m.history_cursor is Some && m.history.len() > 0 ==> m.history_cursor->0 <= m.history.len()
}

/// The command line after the history was left.
pub open spec fn unbrowsed(m: CommandModel) -> CommandModel {
    if m.history_cursor is Some {
        CommandModel { history_cursor: None, saved_input: Seq::empty(), ..m }
    } else {
        m
    }
}

// ---------------------------------------------------------------------------
// Doing it
// ---------------------------------------------------------------------------

/// There are not too many suggestions.
proof fn lemma_suggestions_bounded(entries: Seq<ResourceEntry>, lower: Seq<char>)
    ensures
        suggestions_for(entries, lower).len() <= MAX_SUGGESTIONS,
{
}

/// The history stays in order.
proof fn lemma_remembered(history: Seq<Seq<char>>, command: Seq<char>)
    requires
        no_repeats(history),
        history.len() <= MAX_HISTORY,
    ensures
        no_repeats(remembered(history, command)),
        remembered(history, command).len() <= MAX_HISTORY,
        remembered(history, command).len() > 0,
        remembered(history, command).last() == command,
{
    let after = remembered(history, command);
    let all = history.push(command);
    assert forall|i: int, j: int| 0 <= i && j == i + 1 && j < after.len() implies #[trigger] after[i]
        != #[trigger] after[j] by {
        if after.len() != history.len() || history.len() >= MAX_HISTORY {
            let shift: int = all.len() - after.len();
            if !(history.len() > 0 && history.last() == command) {
                assert(after[i] == all[i + shift]);
                assert(after[j] == all[j + shift]);
                if j + shift < history.len() {
                    assert(history[i + shift] != history[j + shift]);
                }
            }
        }
    }
}

impl CommandMode {
    /// An empty command line.
    pub fn new() -> (r: Self)
        ensures
            r@ == empty_line(),
            r@.wf(),
    {
        let input_lower = to_lowercase("");
        proof {
            reveal_strlit("");
            assert(""@ =~= Seq::empty());
            assert(input_lower@ =~= Seq::empty());
        }
        let r = CommandMode {
            active: false,
            input: String::new(),
            input_lower,
            suggestions: Vec::new(),
            selected_suggestion: None,
            submitted: None,
            history: VecDeque::new(),
            history_cursor: None,
            saved_input: String::new(),
            tab_prefix: None,
            tab_cycle_index: 0,
        };
        proof {
            assert(r@ =~= empty_line());
        }
        r
    }

    /// Tests whether the command line is open.
    pub fn is_active(&self) -> (r: bool)
        ensures
            r == self@.active,
    {
        self.active
    }

    /// Clears what is typed, selected and browsed.
    fn clear(&mut self)
        ensures
            final(self)@ == cleared(old(self)@),
            final(self)@.input_lower == lowercase(final(self)@.input),
    {
        self.set_input(String::new());
        self.suggestions = Vec::new();
        self.selected_suggestion = None;
        self.history_cursor = None;
        self.saved_input = String::new();
        proof {
            assert(self@ =~= cleared(old(self)@));
        }
    }

    /// Ends completion.
    fn reset_tab_cycle(&mut self)
        ensures
            final(self)@ == uncycled(old(self)@),
            final(self).suggestions == old(self).suggestions,
            final(self).history == old(self).history,
    {
        self.tab_prefix = None;
        self.tab_cycle_index = 0;
    }

    /// Opens the command line.
    pub fn activate(&mut self)
        ensures
            final(self)@ == activated(old(self)@),
            old(self)@.wf() ==> final(self)@.wf(),
    {
        self.clear();
        self.reset_tab_cycle();
        self.active = true;
        self.submitted = None;
    }

    /// Closes the command line.
    pub fn deactivate(&mut self)
        ensures
            final(self)@ == deactivated(old(self)@),
            old(self)@.wf() ==> final(self)@.wf(),
    {
        self.clear();
        self.reset_tab_cycle();
        self.active = false;
    }

    /// Replaces what is typed.
    fn set_input(&mut self, input: String)
        ensures
            final(self)@ == with_input(old(self)@, input@),
            input@.len() == 0 ==> final(self)@.input_lower.len() == 0,
            final(self).suggestions == old(self).suggestions,
            final(self).history == old(self).history,
    {
        self.input_lower = to_lowercase(input.as_str());
        self.input = input;
    }

    /// Makes the suggestions for what is typed.
    fn update_suggestions(&mut self, registry: &ResourceRegistry)
        ensures
            final(self)@ == suggested(old(self)@, registry.entries@),
    {
        let ghost entries = registry.entries@;
        let matches = fuzzy_match(registry, self.input_lower.as_str(), MAX_SUGGESTIONS);
        let ghost all = suggestions_for(entries, self.input_lower@);
        let size: usize = registry.entries.len();
        let mut out: Vec<Suggestion> = Vec::new();
        let mut i: usize = 0;
        proof {
            assert(suggestions_model(out@) =~= all.take(0));
        }
        while i < matches.len()
            invariant
                i <= matches@.len(),
                size == registry.entries@.len(),
                entries == registry.entries@,
                matches@ == found(entries, self.input_lower@, MAX_SUGGESTIONS as int),
                all == suggestions_for(entries, self.input_lower@),
                suggestions_model(out@) == all.take(i as int),
                *self == *old(self),
            decreases matches@.len() - i,
        {
            proof {
                law_matches_are_entries(
                    entries,
                    self.input_lower@,
                    MAX_SUGGESTIONS as int,
                    i as int,
                );
            }
            let m = matches[i];
            let e = &registry.entries[m.entry_idx];
            let hint = if e.short_names.len() > 0 {
                join(&e.short_names, ", ")
            } else {
                e.singular_name.clone()
            };
            let api_group = if e.api_group.as_str().is_empty() {
                "core".to_owned()
            } else {
                e.api_group.clone()
            };
            let s = Suggestion {
                display: e.resource.clone(),
                hint,
                api_group,
                score: m.score,
                namespaced: e.namespaced,
                entry_idx: m.entry_idx,
            };
            let ghost before = out@;
            out.push(s);
            proof {
                assert(s@ =~= all[i as int]);
                assert(suggestions_model(out@) =~= suggestions_model(before).push(s@));
                assert(all.take(i + 1) =~= all.take(i as int).push(all[i as int]));
            }
            i += 1;
        }
        let n: usize = out.len();
        let selected = match self.selected_suggestion {
            Some(sel) => if sel < n {
                Some(sel)
            } else if n == 0 {
                None
            } else {
                Some(n - 1)
            },
            None => None,
        };
        self.suggestions = out;
        self.selected_suggestion = selected;
        proof {
            assert(all.take(matches@.len() as int) =~= all);
            assert(suggestions_model(self.suggestions@).len() == n);
            assert(self@ =~= suggested(old(self)@, entries));
        }
    }

    /// Types a character.
    pub fn push_char(&mut self, c: char, registry: &ResourceRegistry)
        ensures
            final(self)@ == typed(old(self)@, c, registry.entries@),
            old(self)@.wf() ==> final(self)@.wf(),
    {
        self.reset_tab_cycle();
        let mut input = self.input.clone();
        input.push(c);
        self.set_input(input);
        self.update_suggestions(registry);
        proof {
            lemma_suggestions_bounded(registry.entries@, self@.input_lower);
        }
    }

    /// Removes the last character.
    pub fn backspace(&mut self, registry: &ResourceRegistry)
        ensures
            final(self)@ == backspaced(old(self)@, registry.entries@),
            old(self)@.wf() ==> final(self)@.wf(),
    {
        self.reset_tab_cycle();
        let mut input = self.input.clone();
        let _last = input.pop();
        let empty = input.as_str().is_empty();
        self.set_input(input);
        if empty {
            self.suggestions = Vec::new();
            self.selected_suggestion = None;
            proof {
                assert(self@ =~= backspaced(old(self)@, registry.entries@));
            }
        } else {
            self.update_suggestions(registry);
            proof {
                lemma_suggestions_bounded(registry.entries@, self@.input_lower);
            }
        }
    }

    /// Selects the next suggestion.
    pub fn select_next(&mut self)
        ensures
            final(self)@ == next_selected(old(self)@),
            old(self)@.wf() ==> final(self)@.wf(),
    {
        proof {
            assert(suggestions_model(self.suggestions@).len() == self.suggestions@.len());
        }
        self.reset_tab_cycle();
        let n: usize = self.suggestions.len();
        if n == 0 {
            return;
        }
        self.selected_suggestion = match self.selected_suggestion {
            None => Some(0),
            Some(i) => if i < n - 1 {
                Some(i + 1)
            } else {
                Some(n - 1)
            },
        };
    }

    /// Selects the suggestion before.
    pub fn select_prev(&mut self)
        ensures
            final(self)@ == prev_selected(old(self)@),
            old(self)@.wf() ==> final(self)@.wf(),
    {
        proof {
            assert(suggestions_model(self.suggestions@).len() == self.suggestions@.len());
        }
        self.reset_tab_cycle();
        if self.suggestions.len() == 0 {
            return;
        }
        self.selected_suggestion = match self.selected_suggestion {
            None => None,
            Some(i) => if i == 0 {
                None
            } else {
                Some(i - 1)
            },
        };
    }

    /// Puts the suggestion at the position of completion into the line.
    fn fill(&mut self)
        ensures
            final(self)@ == filled(old(self)@),
    {
        proof {
            assert(suggestions_model(self.suggestions@).len() == self.suggestions@.len());
        }
        let i: usize = self.tab_cycle_index;
        if i < self.suggestions.len() {
            proof {
                assert(self@.suggestions[i as int].display == self.suggestions@[i as int].display@);
            }
            let display = self.suggestions[i].display.clone();
            self.set_input(display);
            self.selected_suggestion = Some(i);
        }
    }

    /// Completes what is typed by the best suggestion, and from then on by the
    /// next one, round and round.
    pub fn tab_complete(&mut self, _registry: &ResourceRegistry)
        requires
            old(self)@.tab_prefix is Some ==> old(self)@.tab_index < usize::MAX,
        ensures
            final(self)@ == completed(old(self)@),
            old(self)@.wf() ==> final(self)@.wf(),
    {
        proof {
            assert(suggestions_model(self.suggestions@).len() == self.suggestions@.len());
        }
        let n: usize = self.suggestions.len();
        if n == 0 && self.tab_prefix.is_none() {
            return;
        }
        if self.tab_prefix.is_some() {
            let len: usize = if n == 0 {
                1
            } else {
                n
            };
            self.tab_cycle_index = (self.tab_cycle_index + 1) % len;
        } else {
            let prefix = self.input.clone();
            self.tab_prefix = Some(prefix);
            self.tab_cycle_index = 0;
        }
        self.fill();
    }

    /// Completes what is typed by the last suggestion, and from then on by the
    /// one before, round and round.
    pub fn tab_complete_prev(&mut self, _registry: &ResourceRegistry)
        ensures
            final(self)@ == completed_back(old(self)@),
            old(self)@.wf() ==> final(self)@.wf(),
    {
        proof {
            assert(suggestions_model(self.suggestions@).len() == self.suggestions@.len());
        }
        let n: usize = self.suggestions.len();
        if n == 0 && self.tab_prefix.is_none() {
            return;
        }
        if self.tab_prefix.is_some() {
            let len: usize = if n == 0 {
                1
            } else {
                n
            };
            self.tab_cycle_index = if self.tab_cycle_index == 0 {
                len - 1
            } else {
                self.tab_cycle_index - 1
            };
        } else {
            let prefix = self.input.clone();
            self.tab_prefix = Some(prefix);
            self.tab_cycle_index = n - 1;
        }
        self.fill();
    }

    /// Takes the selected suggestion over, so that it can be entered.
    pub fn accept_selection(&mut self, registry: &ResourceRegistry)
        ensures
            final(self)@ == accepted(old(self)@, registry.entries@),
            old(self)@.wf() ==> final(self)@.wf(),
    {
        proof {
            assert(suggestions_model(self.suggestions@).len() == self.suggestions@.len());
        }
        match self.selected_suggestion {
            Some(i) => {
                if i < self.suggestions.len() {
                    proof {
                        assert(self@.suggestions[i as int].display
                            == self.suggestions@[i as int].display@);
                    }
                    let display = self.suggestions[i].display.clone();
                    self.set_input(display);
                    self.update_suggestions(registry);
                    self.selected_suggestion = None;
                    proof {
                        lemma_suggestions_bounded(registry.entries@, self@.input_lower);
                    }
                }
            },
            None => {},
        }
    }

    /// Enters the command: the selected suggestion, or what is typed. Where
    /// there is neither, the command line is closed.
    pub fn submit(&mut self) -> (r: bool)
        ensures
            r == can_submit(old(self)@),
            final(self)@ == submitted(old(self)@),
            old(self)@.wf() ==> final(self)@.wf(),
    {
        proof {
            assert(suggestions_model(self.suggestions@).len() == self.suggestions@.len());
        }
        if self.input.as_str().is_empty() && self.selected_suggestion.is_none() {
            self.deactivate();
            return false;
        }
        let command = match self.selected_suggestion {
            Some(i) => if i < self.suggestions.len() {
                proof {
                    assert(self@.suggestions[i as int].display
                        == self.suggestions@[i as int].display@);
                }
                self.suggestions[i].display.clone()
            } else {
                self.input.clone()
            },
            None => self.input.clone(),
        };
        proof {
            assert(command@ == entered(self@));
            if old(self)@.wf() {
                lemma_remembered(old(self)@.history, command@);
            }
        }
        self.remember(command.as_str());
        self.clear();
        self.reset_tab_cycle();
        self.submitted = Some(command);
        self.active = false;
        true
    }

    /// Adds a command to the history.
    fn remember(&mut self, command: &str)
        ensures
            final(self)@ == (CommandModel {
                history: remembered(old(self)@.history, command@),
                ..old(self)@
            }),
    {
        let n: usize = self.history.len();
        proof {
            assert(texts(self.history@).len() == n);
            if n > 0 {
                assert(texts(self.history@).last() == self.history@[n - 1]@);
            }
        }
        let repeats = n > 0 && same(self.history[n - 1].as_str(), command);
        if !repeats {
            self.history.push_back(command.to_owned());
            if n >= MAX_HISTORY {
                let ghost all = self.history@;
                let _oldest = self.history.pop_front();
                proof {
                    assert(texts(self.history@) =~= texts(all).skip(1));
                }
            }
        }
        proof {
            assert(self@ =~= (CommandModel {
                history: remembered(old(self)@.history, command@),
                ..old(self)@
            }));
        }
    }

    /// Takes the command that was entered: it is there once.
    pub fn take_submitted(&mut self) -> (r: Option<String>)
        ensures
            text_view(r) == old(self)@.submitted,
            final(self)@ == (CommandModel { submitted: None, ..old(self)@ }),
            old(self)@.wf() ==> final(self)@.wf(),
    {
        let r = self.submitted.clone();
        self.submitted = None;
        r
    }

    /// Shows a command of the history.
    fn browse(&mut self, i: usize, registry: &ResourceRegistry)
        requires
            i < old(self)@.history.len(),
        ensures
            final(self)@ == browsed(old(self)@, i as int, registry.entries@),
    {
        proof {
            assert(texts(self.history@).len() == self.history@.len());
            assert(self@.history[i as int] == self.history@[i as int]@);
        }
        let command = self.history[i].clone();
        self.history_cursor = Some(i);
        self.set_input(command);
        self.update_suggestions(registry);
    }

    /// Goes back in the history.
    pub fn history_prev(&mut self, registry: &ResourceRegistry)
        requires
            can_go_back(old(self)@),
        ensures
            final(self)@ == older(old(self)@, registry.entries@),
            old(self)@.wf() ==> final(self)@.wf(),
    {
        proof {
            assert(texts(self.history@).len() == self.history@.len());
        }
        self.reset_tab_cycle();
        let n: usize = self.history.len();
        if n == 0 {
            return;
        }
        match self.history_cursor {
            None => {
                self.saved_input = self.input.clone();
                self.browse(n - 1, registry);
                proof {
                    lemma_suggestions_bounded(registry.entries@, self@.input_lower);
                }
            },
            Some(i) => {
                if i > 0 {
                    self.browse(i - 1, registry);
                    proof {
                        lemma_suggestions_bounded(registry.entries@, self@.input_lower);
                    }
                }
            },
        }
    }

    /// Goes forward in the history, and behind its end back to what was typed.
    pub fn history_next(&mut self, registry: &ResourceRegistry)
        ensures
            final(self)@ == newer(old(self)@, registry.entries@),
            old(self)@.wf() ==> final(self)@.wf(),
    {
        proof {
            assert(texts(self.history@).len() == self.history@.len());
        }
        self.reset_tab_cycle();
        match self.history_cursor {
            None => {},
            Some(i) => {
                if i < self.history.len() && i + 1 < self.history.len() {
                    self.browse(i + 1, registry);
                } else {
                    let input = self.saved_input.clone();
                    self.history_cursor = None;
                    self.saved_input = String::new();
                    proof {
                        assert(self.saved_input@ =~= Seq::empty());
                    }
                    self.set_input(input);
                    self.update_suggestions(registry);
                }
                proof {
                    lemma_suggestions_bounded(registry.entries@, self@.input_lower);
                }
            },
        }
    }

    /// Leaves the history; what is shown stays.
    pub fn reset_history_cursor(&mut self)
        ensures
            final(self)@ == unbrowsed(old(self)@),
            old(self)@.wf() ==> final(self)@.wf(),
    {
        if self.history_cursor.is_some() {
            self.history_cursor = None;
            self.saved_input = String::new();
            proof {
                assert(self.saved_input@ =~= Seq::empty());
            }
        }
    }

    /// How many commands are remembered.
    pub fn history_len(&self) -> (r: usize)
        ensures
            r == self@.history.len(),
    {
        self.history.len()
    }

    /// The command of the history that is shown.
    pub fn history_cursor(&self) -> (r: Option<usize>)
        ensures
            r == self@.history_cursor,
    {
        self.history_cursor
    }

    /// Tests whether what is typed is being completed.
    pub fn is_tab_cycling(&self) -> (r: bool)
        ensures
            r == self@.tab_prefix is Some,
    {
        self.tab_prefix.is_some()
    }

    /// The position of completion.
    pub fn tab_cycle_index(&self) -> (r: usize)
        ensures
            r == self@.tab_index,
    {
        self.tab_cycle_index
    }

    /// What was typed before it was completed.
    pub fn tab_prefix(&self) -> (r: Option<&str>)
        ensures
            r is Some == self@.tab_prefix is Some,
            r is Some ==> r->0@ == self@.tab_prefix->0,
    {
        match &self.tab_prefix {
            Some(s) => Some(s.as_str()),
            None => None,
        }
    }

    /// What is typed.
    pub fn input(&self) -> (r: &str)
        ensures
            r@ == self@.input,
    {
        self.input.as_str()
    }
}

impl Default for CommandMode {
    fn default() -> (r: Self)
        ensures
            r@ == empty_line(),
            r@.wf(),
    {
        CommandMode::new()
    }
}

// ---------------------------------------------------------------------------
// What is offered behind the cursor
// ---------------------------------------------------------------------------

/// Whether something may be offered: something is typed, nothing is selected or
/// being completed, and there is a suggestion.
pub open spec fn may_offer(m: CommandModel) -> bool {
    m.tab_prefix is None && m.selected is None && m.input.len() > 0 && m.suggestions.len() > 0
}

/// Whether the best suggestion, given in lower case, goes on from what is typed.
pub open spec fn goes_on(m: CommandModel, display_lower: Seq<char>) -> bool {
    may_offer(m) && has_prefix(display_lower, m.input_lower) && display_lower != m.input_lower
}

/// What is left of the best suggestion behind as many bytes as are typed, where
/// a character ends there.
pub open spec fn offered(m: CommandModel) -> Option<Seq<char>> {
    behind_bytes(m.suggestions[0].display, text_bytes(m.input))
}

impl CommandMode {
    /// What the best suggestion adds to what is typed, given the suggestion in
    /// lower case.
    pub fn ghost_suffix(&self, display_lower: &str) -> (r: Option<String>)
        requires
            goes_on(self@, display_lower@) ==> offered(self@) is Some,
        ensures
            r is Some == goes_on(self@, display_lower@),
            r is Some ==> r->0@ == offered(self@)->0,
    {
        proof {
            assert(suggestions_model(self.suggestions@).len() == self.suggestions@.len());
        }
        if self.tab_prefix.is_some() || self.selected_suggestion.is_some() {
            return None;
        }
        if self.input.as_str().is_empty() || self.suggestions.len() == 0 {
            return None;
        }
        if starts_with(display_lower, self.input_lower.as_str()) && !same(
            display_lower,
            self.input_lower.as_str(),
        ) {
            proof {
                assert(self@.suggestions[0].display == self.suggestions@[0].display@);
            }
            drop_bytes_of(self.suggestions[0].display.as_str(), self.input.as_str())
        } else {
            None
        }
    }

    /// What the best suggestion adds to what is typed. Nothing is offered where
    /// what is typed ends within one of the suggestion's characters.
    pub fn ghost_text(&self) -> (r: Option<String>)
        ensures
            may_offer(self@) ==> r is Some == (goes_on(
                self@,
                lowercase(self@.suggestions[0].display),
            ) && offered(self@) is Some),
            !may_offer(self@) ==> r is None,
            r is Some ==> r->0@ == offered(self@)->0,
    {
        proof {
            assert(suggestions_model(self.suggestions@).len() == self.suggestions@.len());
        }
        if self.suggestions.len() == 0 {
            return None;
        }
        proof {
            assert(self@.suggestions[0].display == self.suggestions@[0].display@);
        }
        let display = self.suggestions[0].display.as_str();
        let rest = drop_bytes_of(display, self.input.as_str());
        if rest.is_none() {
            return None;
        }
        let display_lower = to_lowercase(display);
        self.ghost_suffix(display_lower.as_str())
    }
}

// ---------------------------------------------------------------------------
// Laws
// ---------------------------------------------------------------------------

/// While what is typed is being completed, going back undoes going on: the line
/// and the selection are what they were.
pub proof fn law_completion_goes_both_ways(m: CommandModel)
    requires
        m.wf(),
        m.tab_prefix is Some,
        m.tab_index < m.suggestions.len(),
        filled(m) == m,
    ensures
        completed_back(completed(m)) == m,
        completed(completed_back(m)) == m,
{
    let n = m.suggestions.len() as int;
    if m.tab_index + 1 < n {
        assert((m.tab_index + 1) % n == m.tab_index + 1) by (nonlinear_arith)
            requires
                0 <= m.tab_index + 1 < n,
        ;
    } else {
        assert((m.tab_index + 1) % n == 0) by (nonlinear_arith)
            requires
                m.tab_index + 1 == n,
                n > 0,
        ;
    }
    assert(0int % n == 0) by (nonlinear_arith)
        requires
            n > 0,
    ;
    if m.tab_index > 0 {
        assert((m.tab_index as int) % n == m.tab_index) by (nonlinear_arith)
            requires
                0 <= m.tab_index < n,
        ;
    } else {
        assert(n % n == 0) by (nonlinear_arith)
            requires
                n > 0,
        ;
    }
    assert(completed_back(completed(m)) =~= m);
    assert(completed(completed_back(m)) =~= m);
}

/// Completion keeps what was typed at its start, however often it goes on.
pub proof fn law_completion_keeps_prefix(m: CommandModel)
    requires
        m.tab_prefix is Some,
    ensures
        completed(m).tab_prefix == m.tab_prefix,
        completed_back(m).tab_prefix == m.tab_prefix,
        completed(m).suggestions == m.suggestions,
        completed_back(m).suggestions == m.suggestions,
{
}

/// Any key but those of completion ends it.
pub proof fn law_other_keys_end_completion(
    m: CommandModel,
    c: char,
    entries: Seq<ResourceEntry>,
)
    ensures
        typed(m, c, entries).tab_prefix is None,
        backspaced(m, entries).tab_prefix is None,
        next_selected(m).tab_prefix is None,
        prev_selected(m).tab_prefix is None,
        activated(m).tab_prefix is None,
        older(m, entries).tab_prefix is None,
        newer(m, entries).tab_prefix is None,
        submitted(m).tab_prefix is None,
        activated(m).tab_prefix is None,
        deactivated(m).tab_prefix is None,
{
}

/// The command line after going back in the history a number of times.
pub open spec fn older_by(m: CommandModel, entries: Seq<ResourceEntry>, k: nat) -> CommandModel
    decreases k,
{
    if k == 0 {
        m
    } else {
        older(older_by(m, entries, (k - 1) as nat), entries)
    }
}

/// The command line after going forward in the history a number of times.
pub open spec fn newer_by(m: CommandModel, entries: Seq<ResourceEntry>, k: nat) -> CommandModel
    decreases k,
{
    if k == 0 {
        m
    } else {
        newer(newer_by(m, entries, (k - 1) as nat), entries)
    }
}

/// Where a number of steps back lead: to a command that is as many from the end,
/// or to the first.
proof fn lemma_older_by(m: CommandModel, entries: Seq<ResourceEntry>, k: nat)
    requires
        m.history_cursor is None,
        0 < m.history.len() <= usize::MAX,
        k > 0,
    ensures
        ({
            let back = older_by(m, entries, k);
            &&& back.history == m.history
            &&& back.saved_input == m.input
            &&& back.history_cursor is Some
            &&& back.history_cursor->0 == if k < m.history.len() {
                m.history.len() - k
            } else {
                0
            }
        }),
    decreases k,
{
    if k == 1 {
        assert(older_by(m, entries, 0) == m);
    } else {
        lemma_older_by(m, entries, (k - 1) as nat);
    }
}

/// Where a number of steps forward lead: on through the history, and behind its
/// end to what was typed before.
proof fn lemma_newer_by(m: CommandModel, entries: Seq<ResourceEntry>, k: nat)
    requires
        m.history_cursor is Some,
        m.history_cursor->0 < m.history.len() <= usize::MAX,
    ensures
        ({
            let forth = newer_by(m, entries, k);
            let at = m.history_cursor->0 + k;
            &&& forth.history == m.history
            &&& at < m.history.len() ==> forth.history_cursor == Some(at as usize)
                && forth.saved_input == m.saved_input
            &&& at >= m.history.len() ==> forth.history_cursor is None && forth.input
                == m.saved_input
        }),
    decreases k,
{
    if k > 0 {
        lemma_newer_by(m, entries, (k - 1) as nat);
    }
}

/// Without a command of the history to leave, steps forward change nothing that is
/// typed.
proof fn lemma_newer_by_stays(m: CommandModel, entries: Seq<ResourceEntry>, k: nat)
    requires
        m.history_cursor is None,
    ensures
        newer_by(m, entries, k).input == m.input,
        newer_by(m, entries, k).history_cursor is None,
        newer_by(m, entries, k).history == m.history,
    decreases k,
{
    if k > 0 {
        lemma_newer_by_stays(m, entries, (k - 1) as nat);
    }
}

/// Without a history, steps back change nothing that is typed.
proof fn lemma_older_by_stays(m: CommandModel, entries: Seq<ResourceEntry>, k: nat)
    requires
        m.history_cursor is None,
        m.history.len() == 0,
    ensures
        older_by(m, entries, k).input == m.input,
        older_by(m, entries, k).history_cursor is None,
        older_by(m, entries, k).history == m.history,
    decreases k,
{
    if k > 0 {
        lemma_older_by_stays(m, entries, (k - 1) as nat);
    }
}

/// Going back in the history any number of times and then forward as often gives
/// back what was typed.
pub proof fn law_history_gives_input_back(m: CommandModel, entries: Seq<ResourceEntry>, k: nat)
    requires
        m.history_cursor is None,
        m.history.len() <= usize::MAX,
    ensures
        ({
            let there_and_back = newer_by(older_by(m, entries, k), entries, k);
            &&& there_and_back.input == m.input
            &&& there_and_back.history_cursor is None
            &&& there_and_back.history == m.history
        }),
{
    if k > 0 && m.history.len() > 0 {
        lemma_older_by(m, entries, k);
        lemma_newer_by(older_by(m, entries, k), entries, k);
    } else {
        if k > 0 {
            lemma_older_by_stays(m, entries, k);
        }
        lemma_newer_by_stays(older_by(m, entries, k), entries, k);
    }
}

/// Removing a character undoes typing one: the line is what it was.
pub proof fn law_backspace_undoes_typing(
    m: CommandModel,
    c: char,
    entries: Seq<ResourceEntry>,
)
    ensures
        backspaced(typed(m, c, entries), entries).input == m.input,
{
    assert(m.input.push(c).drop_last() =~= m.input);
}

/// A command that was entered is the latest of the history, and the command
/// line is closed.
pub proof fn law_submitted_is_remembered(m: CommandModel)
    requires
        m.wf(),
        can_submit(m),
    ensures
        submitted(m).submitted == Some(entered(m)),
        submitted(m).history.len() > 0,
        submitted(m).history.last() == entered(m),
        !submitted(m).active,
{
    lemma_remembered(m.history, entered(m));
}

/// Entering the latest command again leaves the history as it is.
pub proof fn law_repeated_command_remembered_once(history: Seq<Seq<char>>, command: Seq<char>)
    requires
        history.len() <= MAX_HISTORY,
        no_repeats(history),
    ensures
        remembered(remembered(history, command), command) == remembered(history, command),
{
    lemma_remembered(history, command);
}

} // verus!
