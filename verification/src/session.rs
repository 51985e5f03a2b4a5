//! The interaction state machine: the ordered entries with their per-session
//! selection and outcome state, the cursor, the mode, and the transitions a
//! key press drives. The machine is pure state: the surrounding program polls
//! the terminal, maps key presses to `Key` values, renders after every
//! mutation, and performs the installation run when told to.

use vstd::prelude::*;

verus! {

use vstd::string::StringExecFns;
use crate::executor::{Status, StatusSpec};
use crate::manifest::Entry;
use crate::render::Symbols;
use crate::text::{dec_chars, str_views, u64_string};

/// One entry together with its per-session state.
pub struct EntryState {
    pub entry: Entry,
    /// User-toggled selection flag.
    pub selected: bool,
    /// The result of the last installation attempt, if a run touched this
    /// entry; cleared when a new run starts.
    pub status: Option<Status>,
}

/// The interaction mode the session is in.
#[derive(Clone, Copy, Debug, PartialEq, Eq, Structural)]
pub enum Mode {
    Selecting,
    Confirming,
    ShowingResults,
}

/// The side effect a key press asks the caller to perform.
#[derive(Clone, Copy, Debug, PartialEq, Eq, Structural)]
pub enum Action {
    NoOp,
    /// Begin the installation run for the selected entries.
    StartInstall,
}

/// A key press, as the state machine sees it.
#[derive(Clone, Copy, Debug, PartialEq, Eq, Structural)]
pub enum Key {
    Up,
    Down,
    Enter,
    Escape,
    Char(char),
    Other,
}

/// The whole interactive session.
pub struct Session {
    pub items: Vec<EntryState>,
    /// The cursor: always a valid index into `items`.
    pub index: usize,
    pub mode: Mode,
    /// A transient informational message.
    pub info: Option<String>,
    /// The caption of the installation run's progress.
    pub progress: Option<String>,
    pub should_quit: bool,
    pub symbols: Symbols,
}

/// How many entries are selected.
pub open spec fn count_selected(items: Seq<EntryState>) -> nat
    decreases items.len(),
{
    if items.len() == 0 {
        0
    } else {
        count_selected(items.drop_last()) + if items.last().selected {
            1nat
        } else {
            0
        }
    }
}

/// Selection-count law: `count_selected` — what `selected_count` returns in
/// any state, so after any sequence of toggle and bulk-selection operations —
/// is the number of entries whose `selected` flag is set.
pub proof fn lemma_count_is_filter_len(items: Seq<EntryState>)
    ensures
        count_selected(items) == items.filter(|it: EntryState| it.selected).len(),
    decreases items.len(),
{
    reveal(Seq::filter);
    if items.len() > 0 {
        lemma_count_is_filter_len(items.drop_last());
    }
}

/// The display labels of the selected entries, in order.
pub open spec fn selected_labels_spec(items: Seq<EntryState>) -> Seq<Seq<char>>
    decreases items.len(),
{
    if items.len() == 0 {
        Seq::empty()
    } else if items.last().selected {
        selected_labels_spec(items.drop_last()).push(items.last().entry.display_label@)
    } else {
        selected_labels_spec(items.drop_last())
    }
}

/// The cursor one step up, clamped at the first entry.
pub open spec fn index_up(i: usize) -> usize {
    if i > 0 {
        (i - 1) as usize
    } else {
        0
    }
}

/// The cursor one step down, clamped at the last entry.
pub open spec fn index_down(i: usize, len: nat) -> usize {
    if i + 1 < len {
        (i + 1) as usize
    } else {
        i
    }
}

impl Session {
    /// Session sanity: at least one entry, cursor in bounds.
    pub open spec fn wf(self) -> bool {
        self.items@.len() > 0 && (self.index as int) < self.items@.len()
    }

    /// Wraps parsed entries into a fresh session: nothing selected, no
    /// outcomes, cursor on the first entry, selecting mode.
    pub fn new(entries: Vec<Entry>, info: Option<String>, symbols: Symbols) -> (r: Session)
        requires
            entries@.len() > 0,
        ensures
            r.wf(),
            r.items@.len() == entries@.len(),
            forall|i: int|
                0 <= i < entries@.len() ==> #[trigger] r.items@[i].entry == entries@[i]
                    && !r.items@[i].selected && r.items@[i].status is None,
            r.index == 0,
            r.mode == Mode::Selecting,
            r.info == info,
            r.progress is None,
            !r.should_quit,
            r.symbols == symbols,
    {
        let ghost orig = entries@;
        let mut rest = entries;
        let mut items: Vec<EntryState> = Vec::new();
        while rest.len() > 0
            invariant
                items@.len() + rest@.len() == orig.len(),
                rest@ == orig.skip(items@.len() as int),
                forall|i: int|
                    0 <= i < items@.len() ==> #[trigger] items@[i].entry == orig[i]
                        && !items@[i].selected && items@[i].status is None,
            decreases rest.len(),
        {
            let ghost k = items@.len() as int;
            let e = rest.remove(0);
            proof {
                assert(e == orig.skip(k)[0]);
                assert(orig.skip(k)[0] == orig[k]);
                assert(rest@ =~= orig.skip(k + 1));
            }
            items.push(EntryState { entry: e, selected: false, status: Option::None });
        }
        Session {
            items,
            index: 0,
            mode: Mode::Selecting,
            info,
            progress: None,
            should_quit: false,
            symbols,
        }
    }

    /// How many entries are currently selected.
    pub fn selected_count(&self) -> (n: usize)
        ensures
            n == count_selected(self.items@),
    {
        let mut n: usize = 0;
        let mut i: usize = 0;
        while i < self.items.len()
            invariant
                0 <= i <= self.items@.len(),
                n == count_selected(self.items@.take(i as int)),
                n <= i,
            decreases self.items.len() - i,
        {
            proof {
                assert(self.items@.take(i + 1).drop_last() =~= self.items@.take(i as int));
                assert(self.items@.take(i + 1).last() == self.items@[i as int]);
            }
            if self.items[i].selected {
                n += 1;
            }
            i += 1;
        }
        proof {
            assert(self.items@.take(self.items@.len() as int) =~= self.items@);
        }
        n
    }

    /// The positions of the selected entries, in ascending manifest order.
    pub fn selected_indices(&self) -> (r: Vec<usize>)
        ensures
            r@.len() == count_selected(self.items@),
            forall|a: int, b: int| 0 <= a < b < r@.len() ==> r@[a] < r@[b],
            forall|a: int|
                0 <= a < r@.len() ==> r@[a] < self.items@.len() && self.items@[#[trigger] r@[a] as int].selected,
            forall|i: int|
                0 <= i < self.items@.len() && #[trigger] self.items@[i].selected ==> r@.contains(
                    i as usize,
                ),
    {
        let mut r: Vec<usize> = Vec::new();
        let mut i: usize = 0;
        while i < self.items.len()
            invariant
                0 <= i <= self.items@.len(),
                r@.len() == count_selected(self.items@.take(i as int)),
                forall|a: int, b: int| 0 <= a < b < r@.len() ==> r@[a] < r@[b],
                forall|a: int|
                    0 <= a < r@.len() ==> r@[a] < i && self.items@[#[trigger] r@[a] as int].selected,
                forall|j: int|
                    0 <= j < i && #[trigger] self.items@[j].selected ==> r@.contains(j as usize),
            decreases self.items.len() - i,
        {
            proof {
                assert(self.items@.take(i + 1).drop_last() =~= self.items@.take(i as int));
                assert(self.items@.take(i + 1).last() == self.items@[i as int]);
            }
            if self.items[i].selected {
                let ghost r0 = r@;
                r.push(i);
                proof {
                    assert(r@[r@.len() - 1] == i);
                    assert(r@.contains(i));
                    assert forall|j: int|
                        0 <= j < i && #[trigger] self.items@[j].selected implies r@.contains(
                        j as usize,
                    ) by {
                        let k = choose|k: int| 0 <= k < r0.len() && r0[k] == j as usize;
                        assert(r@[k] == j as usize);
                    }
                }
            }
            i += 1;
        }
        proof {
            assert(self.items@.take(self.items@.len() as int) =~= self.items@);
        }
        r
    }

    /// The display labels of the selected entries, in order.
    pub fn selected_labels(&self) -> (r: Vec<String>)
        ensures
            str_views(r@) == selected_labels_spec(self.items@),
    {
        let mut r: Vec<String> = Vec::new();
        let mut i: usize = 0;
        proof {
            assert(str_views(r@) =~= selected_labels_spec(self.items@.take(0)));
        }
        while i < self.items.len()
            invariant
                0 <= i <= self.items@.len(),
                str_views(r@) == selected_labels_spec(self.items@.take(i as int)),
            decreases self.items.len() - i,
        {
            proof {
                assert(self.items@.take(i + 1).drop_last() =~= self.items@.take(i as int));
                assert(self.items@.take(i + 1).last() == self.items@[i as int]);
            }
            if self.items[i].selected {
                let label = self.items[i].entry.display_label.clone();
                proof {
                    assert(str_views(r@.push(label)) =~= str_views(r@).push(label@));
                }
                r.push(label);
            }
            i += 1;
        }
        proof {
            assert(self.items@.take(self.items@.len() as int) =~= self.items@);
        }
        r
    }

    /// The description of the entry under the cursor.
    pub fn current_description(&self) -> (r: &str)
        requires
            self.wf(),
        ensures
            r@ == self.items@[self.index as int].entry.description@,
    {
        self.items[self.index].entry.description.as_str()
    }

    /// Clears every entry's outcome, as the start of an installation run does.
    pub fn clear_statuses(&mut self)
        ensures
            final(self).items@.len() == old(self).items@.len(),
            forall|i: int|
                0 <= i < final(self).items@.len() ==> #[trigger] final(self).items@[i] == (EntryState {
                    status: Option::None,
                    ..old(self).items@[i]
                }),
            final(self).index == old(self).index,
            final(self).mode == old(self).mode,
            final(self).info == old(self).info,
            final(self).progress == old(self).progress,
            final(self).should_quit == old(self).should_quit,
            final(self).symbols == old(self).symbols,
    {
        let n = self.items.len();
        let mut i: usize = 0;
        while i < n
            invariant
                0 <= i <= n == self.items@.len(),
                self.items@.len() == old(self).items@.len(),
                forall|j: int|
                    0 <= j < i ==> #[trigger] self.items@[j] == (EntryState {
                        status: Option::None,
                        ..old(self).items@[j]
                    }),
                forall|j: int| i <= j < n ==> #[trigger] self.items@[j] == old(self).items@[j],
                self.index == old(self).index,
                self.mode == old(self).mode,
                self.info == old(self).info,
                self.progress == old(self).progress,
                self.should_quit == old(self).should_quit,
                self.symbols == old(self).symbols,
            decreases n - i,
        {
            self.items[i].status = Option::None;
            i += 1;
        }
    }

    /// Stores an outcome for the entry at `idx`; out-of-bounds stores are
    /// ignored.
    pub fn set_status(&mut self, idx: usize, status: Status)
        ensures
            (idx as int) < old(self).items@.len() ==> final(self).items@ == old(self).items@.update(
                idx as int,
                (EntryState { status: Option::Some(status), ..old(self).items@[idx as int] }),
            ),
            (idx as int) >= old(self).items@.len() ==> final(self).items@ == old(self).items@,
            final(self).index == old(self).index,
            final(self).mode == old(self).mode,
            final(self).info == old(self).info,
            final(self).progress == old(self).progress,
            final(self).should_quit == old(self).should_quit,
            final(self).symbols == old(self).symbols,
    {
        if idx < self.items.len() {
            self.items[idx].status = Option::Some(status);
        }
    }

    /// Marks the entry at `idx` as being installed, as step `position` of
    /// `total`, and sets the progress caption accordingly.
    pub fn mark_installing(&mut self, idx: usize, position: usize, total: usize)
        requires
            (idx as int) < old(self).items@.len(),
        ensures
            final(self).items@.len() == old(self).items@.len(),
            forall|i: int|
                0 <= i < final(self).items@.len() && i != idx ==> #[trigger] final(self).items@[i] == old(
                    self,
                ).items@[i],
            final(self).items@[idx as int].entry == old(self).items@[idx as int].entry,
            final(self).items@[idx as int].selected == old(self).items@[idx as int].selected,
            final(self).items@[idx as int].status matches Some(st) && st@ == StatusSpec::Pending(
                "Installing..."@,
            ),
            final(self).progress matches Some(p) && p@ == "Installing "@ + dec_chars(position as nat)
                + "/"@ + dec_chars(total as nat) + ": "@
                + old(self).items@[idx as int].entry.display_label@,
            final(self).index == old(self).index,
            final(self).mode == old(self).mode,
            final(self).info == old(self).info,
            final(self).should_quit == old(self).should_quit,
            final(self).symbols == old(self).symbols,
    {
        self.items[idx].status = Option::Some(
            Status::Pending(String::from_str("Installing...")),
        );
        let mut caption = String::from_str("Installing ");
        let pos_s = u64_string(position as u64);
        caption.append(pos_s.as_str());
        caption.append("/");
        let total_s = u64_string(total as u64);
        caption.append(total_s.as_str());
        caption.append(": ");
        caption.append(self.items[idx].entry.display_label.as_str());
        self.progress = Option::Some(caption);
    }

    /// Stores the outcome the executor returned for the entry at `idx` and
    /// sets the completion caption for step `position` of `total`.
    pub fn record_outcome(&mut self, idx: usize, position: usize, total: usize, status: Status)
        requires
            (idx as int) < old(self).items@.len(),
        ensures
            final(self).items@ == old(self).items@.update(
                idx as int,
                (EntryState { status: Option::Some(status), ..old(self).items@[idx as int] }),
            ),
            final(self).progress matches Some(p) && p@ == "Completed "@ + dec_chars(position as nat)
                + "/"@ + dec_chars(total as nat) + ": "@
                + old(self).items@[idx as int].entry.display_label@,
            final(self).index == old(self).index,
            final(self).mode == old(self).mode,
            final(self).info == old(self).info,
            final(self).should_quit == old(self).should_quit,
            final(self).symbols == old(self).symbols,
    {
        let mut caption = String::from_str("Completed ");
        let pos_s = u64_string(position as u64);
        caption.append(pos_s.as_str());
        caption.append("/");
        let total_s = u64_string(total as u64);
        caption.append(total_s.as_str());
        caption.append(": ");
        caption.append(self.items[idx].entry.display_label.as_str());
        self.progress = Option::Some(caption);
        self.items[idx].status = Option::Some(status);
    }

    /// Sets the final caption after an installation run.
    pub fn finish_run(&mut self)
        ensures
            final(self).items@ == old(self).items@,
            final(self).progress matches Some(p) && p@
                == "Installation complete. Press Enter or q to exit."@,
            final(self).index == old(self).index,
            final(self).mode == old(self).mode,
            final(self).info == old(self).info,
            final(self).should_quit == old(self).should_quit,
            final(self).symbols == old(self).symbols,
    {
        self.progress = Option::Some(
            String::from_str("Installation complete. Press Enter or q to exit."),
        );
    }
}

/// What a key press does in the selecting mode.
pub open spec fn sel_post(pre: Session, post: Session, key: Key) -> bool {
    match key {
        Key::Char(c) => {
            if c == 'q' {
                post == (Session { should_quit: true, ..pre })
            } else if c == 'k' {
                post == (Session { info: Option::None, index: index_up(pre.index), ..pre })
            } else if c == 'j' {
                post == (Session {
                    info: Option::None,
                    index: index_down(pre.index, pre.items@.len()),
                    ..pre
                })
            } else if c == ' ' {
                &&& post.items@ == pre.items@.update(
                    pre.index as int,
                    (EntryState {
                        selected: !pre.items@[pre.index as int].selected,
                        ..pre.items@[pre.index as int]
                    }),
                )
                &&& post.info is None
                &&& post.index == pre.index
                &&& post.mode == pre.mode
                &&& post.progress == pre.progress
                &&& post.should_quit == pre.should_quit
                &&& post.symbols == pre.symbols
            } else if c == 'a' || c == 'A' {
                &&& post.items@.len() == pre.items@.len()
                &&& forall|i: int|
                    0 <= i < post.items@.len() ==> #[trigger] post.items@[i] == (EntryState {
                        selected: true,
                        ..pre.items@[i]
                    })
                &&& post.info matches Some(m) && m@ == "All tools selected."@
                &&& post.index == pre.index
                &&& post.mode == pre.mode
                &&& post.progress == pre.progress
                &&& post.should_quit == pre.should_quit
                &&& post.symbols == pre.symbols
            } else if c == 'd' || c == 'D' {
                &&& post.items@.len() == pre.items@.len()
                &&& forall|i: int|
                    0 <= i < post.items@.len() ==> #[trigger] post.items@[i] == (EntryState {
                        selected: false,
                        ..pre.items@[i]
                    })
                &&& post.info matches Some(m) && m@ == "Selections cleared."@
                &&& post.index == pre.index
                &&& post.mode == pre.mode
                &&& post.progress == pre.progress
                &&& post.should_quit == pre.should_quit
                &&& post.symbols == pre.symbols
            } else {
                post == pre
            }
        },
        Key::Escape => post == (Session { should_quit: true, ..pre }),
        Key::Up => post == (Session { info: Option::None, index: index_up(pre.index), ..pre }),
        Key::Down => post == (Session {
            info: Option::None,
            index: index_down(pre.index, pre.items@.len()),
            ..pre
        }),
        Key::Enter => {
            if count_selected(pre.items@) == 0 {
                &&& post.items@ == pre.items@
                &&& post.info matches Some(m) && m@
                    == "Select at least one tool before continuing."@
                &&& post.index == pre.index
                &&& post.mode == pre.mode
                &&& post.progress == pre.progress
                &&& post.should_quit == pre.should_quit
                &&& post.symbols == pre.symbols
            } else {
                post == (Session { mode: Mode::Confirming, info: Option::None, ..pre })
            }
        },
        Key::Other => post == pre,
    }
}

/// What a key press does in the confirming mode.
pub open spec fn conf_post(pre: Session, post: Session, key: Key) -> bool {
    match key {
        Key::Char(c) => {
            if c == 'y' || c == 'Y' {
                &&& post.items@ == pre.items@
                &&& post.mode == Mode::ShowingResults
                &&& post.progress matches Some(p) && p@ == "Preparing installations..."@
                &&& post.index == pre.index
                &&& post.info == pre.info
                &&& post.should_quit == pre.should_quit
                &&& post.symbols == pre.symbols
            } else if c == 'n' || c == 'N' {
                post == (Session { mode: Mode::Selecting, progress: Option::None, ..pre })
            } else if c == 'q' {
                post == (Session { should_quit: true, ..pre })
            } else {
                post == pre
            }
        },
        Key::Escape => post == (Session { mode: Mode::Selecting, progress: Option::None, ..pre }),
        _ => post == pre,
    }
}

/// The side effect a key press in the confirming mode asks for: affirming
/// starts the installation run.
pub open spec fn conf_action(key: Key) -> Action {
    match key {
        Key::Char(c) => if c == 'y' || c == 'Y' {
            Action::StartInstall
        } else {
            Action::NoOp
        },
        _ => Action::NoOp,
    }
}

/// What a key press does in the results mode: advance, quit and cancel keys
/// end the session; nothing else is meaningful.
pub open spec fn res_post(pre: Session, post: Session, key: Key) -> bool {
    match key {
        Key::Enter => post == (Session { should_quit: true, ..pre }),
        Key::Escape => post == (Session { should_quit: true, ..pre }),
        Key::Char(c) => if c == 'q' {
            post == (Session { should_quit: true, ..pre })
        } else {
            post == pre
        },
        _ => post == pre,
    }
}

impl Session {
    /// Handles one key press in the selecting mode.
    pub fn handle_selecting(&mut self, key: Key) -> (a: Action)
        requires
            old(self).wf(),
        ensures
            final(self).wf(),
            a == Action::NoOp,
            sel_post(*old(self), *final(self), key),
    {
        match key {
            Key::Char(c) => {
                if c == 'q' {
                    self.should_quit = true;
                } else if c == 'k' {
                    self.info = Option::None;
                    if self.index > 0 {
                        self.index = self.index - 1;
                    }
                } else if c == 'j' {
                    self.info = Option::None;
                    proof {
                        assert(self.index < self.items.len());
                    }
                    if self.index + 1 < self.items.len() {
                        self.index = self.index + 1;
                    }
                } else if c == ' ' {
                    let cur = self.items[self.index].selected;
                    self.items[self.index].selected = !cur;
                    self.info = Option::None;
                } else if c == 'a' || c == 'A' {
                    self.select_all(true);
                    self.info = Option::Some(String::from_str("All tools selected."));
                } else if c == 'd' || c == 'D' {
                    self.select_all(false);
                    self.info = Option::Some(String::from_str("Selections cleared."));
                }
            },
            Key::Escape => {
                self.should_quit = true;
            },
            Key::Up => {
                self.info = Option::None;
                if self.index > 0 {
                    self.index = self.index - 1;
                }
            },
            Key::Down => {
                self.info = Option::None;
                proof {
                    assert(self.index < self.items.len());
                }
                if self.index + 1 < self.items.len() {
                    self.index = self.index + 1;
                }
            },
            Key::Enter => {
                if self.selected_count() == 0 {
                    self.info = Option::Some(
                        String::from_str("Select at least one tool before continuing."),
                    );
                } else {
                    self.mode = Mode::Confirming;
                    self.info = Option::None;
                }
            },
            Key::Other => {},
        }
        Action::NoOp
    }

    fn select_all(&mut self, value: bool)
        ensures
            final(self).items@.len() == old(self).items@.len(),
            forall|i: int|
                0 <= i < final(self).items@.len() ==> #[trigger] final(self).items@[i] == (EntryState {
                    selected: value,
                    ..old(self).items@[i]
                }),
            final(self).index == old(self).index,
            final(self).mode == old(self).mode,
            final(self).info == old(self).info,
            final(self).progress == old(self).progress,
            final(self).should_quit == old(self).should_quit,
            final(self).symbols == old(self).symbols,
    {
        let n = self.items.len();
        let mut i: usize = 0;
        while i < n
            invariant
                0 <= i <= n == self.items@.len(),
                self.items@.len() == old(self).items@.len(),
                forall|j: int|
                    0 <= j < i ==> #[trigger] self.items@[j] == (EntryState {
                        selected: value,
                        ..old(self).items@[j]
                    }),
                forall|j: int| i <= j < n ==> #[trigger] self.items@[j] == old(self).items@[j],
                self.index == old(self).index,
                self.mode == old(self).mode,
                self.info == old(self).info,
                self.progress == old(self).progress,
                self.should_quit == old(self).should_quit,
                self.symbols == old(self).symbols,
            decreases n - i,
        {
            self.items[i].selected = value;
            i += 1;
        }
    }

    /// Handles one key press in the confirming mode.
    pub fn handle_confirm(&mut self, key: Key) -> (a: Action)
        requires
            old(self).wf(),
        ensures
            final(self).wf(),
            a == conf_action(key),
            conf_post(*old(self), *final(self), key),
    {
        match key {
            Key::Char(c) => {
                if c == 'y' || c == 'Y' {
                    self.mode = Mode::ShowingResults;
                    self.progress = Option::Some(
                        String::from_str("Preparing installations..."),
                    );
                    return Action::StartInstall;
                } else if c == 'n' || c == 'N' {
                    self.mode = Mode::Selecting;
                    self.progress = Option::None;
                } else if c == 'q' {
                    self.should_quit = true;
                }
                Action::NoOp
            },
            Key::Escape => {
                self.mode = Mode::Selecting;
                self.progress = Option::None;
                Action::NoOp
            },
            _ => Action::NoOp,
        }
    }

    /// Handles one key press in the results mode.
    pub fn handle_results(&mut self, key: Key) -> (a: Action)
        requires
            old(self).wf(),
        ensures
            final(self).wf(),
            a == Action::NoOp,
            res_post(*old(self), *final(self), key),
    {
        match key {
            Key::Enter => {
                self.should_quit = true;
            },
            Key::Escape => {
                self.should_quit = true;
            },
            Key::Char(c) => {
                if c == 'q' {
                    self.should_quit = true;
                }
            },
            _ => {},
        }
        Action::NoOp
    }

    /// Dispatches one key press to the current mode's handler.
    pub fn handle_key(&mut self, key: Key) -> (a: Action)
        requires
            old(self).wf(),
        ensures
            final(self).wf(),
            old(self).mode is Selecting ==> sel_post(*old(self), *final(self), key) && a == Action::NoOp,
            old(self).mode is Confirming ==> conf_post(*old(self), *final(self), key) && a
                == conf_action(key),
            old(self).mode is ShowingResults ==> res_post(*old(self), *final(self), key) && a
                == Action::NoOp,
    {
        match self.mode {
            Mode::Selecting => self.handle_selecting(key),
            Mode::Confirming => self.handle_confirm(key),
            Mode::ShowingResults => self.handle_results(key),
        }
    }
}

/// Every entry's outcome cleared, as at the start of an installation run.
pub open spec fn cleared(items: Seq<EntryState>) -> Seq<EntryState> {
    items.map_values(|it: EntryState| EntryState { status: Option::None, ..it })
}

/// Outcomes stored one after another, each at its index: the model of an
/// installation run writing results back.
pub open spec fn apply_outcomes(items: Seq<EntryState>, ops: Seq<(int, Status)>) -> Seq<
    EntryState,
>
    decreases ops.len(),
{
    if ops.len() == 0 {
        items
    } else {
        let rest = apply_outcomes(items, ops.drop_last());
        let op = ops.last();
        if 0 <= op.0 < rest.len() {
            rest.update(op.0, (EntryState { status: Option::Some(op.1), ..rest[op.0] }))
        } else {
            rest
        }
    }
}

proof fn lemma_apply_outcomes_len(items: Seq<EntryState>, ops: Seq<(int, Status)>)
    ensures
        apply_outcomes(items, ops).len() == items.len(),
    decreases ops.len(),
{
    if ops.len() > 0 {
        lemma_apply_outcomes_len(items, ops.drop_last());
    }
}

/// Outcome-isolation law: an installation run first clears every outcome and
/// then stores outcomes only at selected indices, so every unselected entry
/// ends the run with no outcome.
pub proof fn lemma_outcome_isolation(items: Seq<EntryState>, ops: Seq<(int, Status)>)
    requires
        forall|k: int|
            0 <= k < ops.len() ==> 0 <= #[trigger] ops[k].0 < items.len()
                && items[ops[k].0].selected,
    ensures
        forall|i: int|
            0 <= i < items.len() && !(#[trigger] items[i].selected) ==> apply_outcomes(
                cleared(items),
                ops,
            )[i].status is None,
    decreases ops.len(),
{
    lemma_apply_outcomes_len(cleared(items), ops);
    if ops.len() == 0 {
        assert forall|i: int|
            0 <= i < items.len() && !(#[trigger] items[i].selected) implies apply_outcomes(
            cleared(items),
            ops,
        )[i].status is None by {
            assert(cleared(items)[i] == (EntryState { status: Option::None, ..items[i] }));
        }
    } else {
        assert forall|k: int|
            0 <= k < ops.drop_last().len() implies 0 <= #[trigger] ops.drop_last()[k].0
            < items.len() && items[ops.drop_last()[k].0].selected by {
            assert(ops.drop_last()[k] == ops[k]);
        }
        lemma_outcome_isolation(items, ops.drop_last());
        lemma_apply_outcomes_len(cleared(items), ops.drop_last());
        let rest = apply_outcomes(cleared(items), ops.drop_last());
        let op = ops.last();
        assert(ops[ops.len() - 1] == op);
        assert(items[op.0].selected);
        assert forall|i: int|
            0 <= i < items.len() && !(#[trigger] items[i].selected) implies apply_outcomes(
            cleared(items),
            ops,
        )[i].status is None by {
            assert(i != op.0);
            assert(apply_outcomes(cleared(items), ops)[i] == rest[i]);
        }
    }
}

} // verus!
