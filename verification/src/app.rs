//! The controller: a state machine over the live task set, the list
//! selection, and the three draft buffers of the add form. Every key event
//! is one transition, specified exactly by [`App::on_key_rel`].
use vstd::prelude::*;

use crate::codec::{parse_draft, parse_draft_spec};
use crate::datetime::DateTime;
use crate::notification::{
    clone_chars, prepare_notification_sending_task, ContentView, NotificationContent,
    NotificationTask, TaskView,
};

verus! {

/// Which part of the interface has the keyboard.
#[derive(Clone, Copy, PartialEq, Eq, Structural, Debug)]
pub enum InputMode {
    Navigation,
    Add,
}

/// The three fields of the add form, in their cyclic navigation order.
#[derive(Clone, Copy, PartialEq, Eq, Structural, Debug)]
pub enum InputField {
    Title,
    Body,
    Date,
}

impl InputField {
    /// The field after `self` in the cycle Title, Body, Date, Title, ...
    pub open spec fn next_spec(self) -> InputField {
        match self {
            InputField::Title => InputField::Body,
            InputField::Body => InputField::Date,
            InputField::Date => InputField::Title,
        }
    }

    /// The field before `self` in the cycle.
    pub open spec fn previous_spec(self) -> InputField {
        match self {
            InputField::Title => InputField::Date,
            InputField::Body => InputField::Title,
            InputField::Date => InputField::Body,
        }
    }

    pub fn next(self) -> (r: InputField)
        ensures
            r == self.next_spec(),
    {
        match self {
            InputField::Title => InputField::Body,
            InputField::Body => InputField::Date,
            InputField::Date => InputField::Title,
        }
    }

    pub fn previous(self) -> (r: InputField)
        ensures
            r == self.previous_spec(),
    {
        match self {
            InputField::Title => InputField::Date,
            InputField::Body => InputField::Title,
            InputField::Date => InputField::Body,
        }
    }
}

/// A logical key press, already decoded from whatever the terminal
/// delivered.
#[derive(Clone, Copy, PartialEq, Eq, Debug)]
pub enum Key {
    Up,
    Down,
    Enter,
    Esc,
    Backspace,
    Char(char),
}

/// What the control loop must do to the timers after a transition: start
/// the one-shot timer of a newly scheduled task, or stop the timer of a
/// deleted one.
#[derive(Clone, Copy, PartialEq, Eq, Structural, Debug)]
pub enum TimerCommand {
    Spawn { handle: u64 },
    Cancel { handle: u64 },
}

/// A character sequence with its last character removed, if it has one.
pub open spec fn popped(s: Seq<char>) -> Seq<char> {
    if s.len() == 0 {
        s
    } else {
        s.drop_last()
    }
}

fn contains_handle(v: &Vec<u64>, h: u64) -> (r: bool)
    ensures
        r == v@.contains(h),
{
    let mut i: usize = 0;
    while i < v.len()
        invariant
            i <= v.len(),
            forall|k: int| 0 <= k < i ==> v@[k] != h,
        decreases v.len() - i,
    {
        if v[i] == h {
            assert(v@[i as int] == h);
            return true;
        }
        i = i + 1;
    }
    assert(forall|k: int| 0 <= k < v@.len() ==> v@[k] != h);
    false
}

/// The controller state. It owns the live deferred tasks and everything the
/// interface shows: the selection, the mode, the active form field and the
/// draft buffers.
pub struct App {
    pub notifications: Vec<NotificationTask>,
    pub selected: Option<usize>,
    pub should_quit: bool,
    pub input_mode: InputMode,
    pub input_field: InputField,
    pub draft_title: Vec<char>,
    pub draft_body: Vec<char>,
    pub draft_date: Vec<char>,
    pub next_handle: u64,
}

impl App {
    /// The task set as a sequence of mathematical values.
    pub open spec fn tasks(self) -> Seq<TaskView> {
        self.notifications@.map_values(|t: NotificationTask| t@)
    }

    /// The controller invariant: the selection points into the task set,
    /// and no two tasks share a timer handle (handles below `next_handle`
    /// are the spent ones).
    pub open spec fn wf(self) -> bool {
        &&& (self.selected matches Some(i) ==> i < self.notifications@.len())
        &&& (forall|i: int, j: int|
            0 <= i < j < self.tasks().len() ==> self.tasks()[i].handle != self.tasks()[j].handle)
        &&& (forall|i: int|
            0 <= i < self.tasks().len() ==> #[trigger] self.tasks()[i].handle < self.next_handle)
    }

    /// Where the selection lands when the list shrinks to `len` entries:
    /// gone with an empty list, unchanged while still in range, otherwise
    /// on the last entry.
    pub open spec fn clamped_selection(sel: Option<usize>, len: nat) -> Option<usize> {
        match sel {
            None => None,
            Some(i) => if len == 0 {
                None
            } else if i < len {
                Some(i)
            } else {
                Some((len - 1) as usize)
            },
        }
    }

    /// Selection movement for an Up press over `len` entries: wraps from
    /// the first entry to the last, and enters the list at the top.
    pub open spec fn selection_up(sel: Option<usize>, len: nat) -> Option<usize> {
        if len == 0 {
            None
        } else {
            match sel {
                None => Some(0usize),
                Some(i) => if i > 0 {
                    Some((i - 1) as usize)
                } else {
                    Some((len - 1) as usize)
                },
            }
        }
    }

    /// Selection movement for a Down press: wraps from the last entry to
    /// the first, and enters the list at the top.
    pub open spec fn selection_down(sel: Option<usize>, len: nat) -> Option<usize> {
        if len == 0 {
            None
        } else {
            match sel {
                None => Some(0usize),
                Some(i) => if i + 1 >= len {
                    Some(0usize)
                } else {
                    Some((i + 1) as usize)
                },
            }
        }
    }

    /// Well-formedness reads only the task set, the selection and the
    /// handle counter; two states that agree on those stand or fall
    /// together.
    proof fn lemma_wf_same_tasks(a: App, b: App)
        requires
            a.wf(),
            b.notifications == a.notifications,
            b.next_handle == a.next_handle,
            b.selected matches Some(i) ==> i < b.notifications@.len(),
        ensures
            b.wf(),
    {
        assert(b.tasks() == a.tasks());
    }

    /// The handle a delete at the current selection would cancel.
    pub open spec fn deleted_handle(pre: App) -> Option<u64> {
        match pre.selected {
            None => None,
            Some(i) => Some(pre.tasks()[i as int].handle),
        }
    }

    /// Exactly what deleting the selected entry does: with no selection,
    /// nothing; otherwise the selected task leaves the set, its timer
    /// handle is reported for cancellation, and the selection is clamped
    /// to the shortened list.
    pub open spec fn delete_rel(pre: App, post: App, cancelled: Option<u64>) -> bool {
        match pre.selected {
            None => post == pre && cancelled is None,
            Some(i) => {
                &&& post.tasks() == pre.tasks().remove(i as int)
                &&& cancelled == Some(pre.tasks()[i as int].handle)
                &&& post.selected == App::clamped_selection(Some(i), post.tasks().len())
                &&& post.should_quit == pre.should_quit
                &&& post.input_mode == pre.input_mode
                &&& post.input_field == pre.input_field
                &&& post.draft_title == pre.draft_title
                &&& post.draft_body == pre.draft_body
                &&& post.draft_date == pre.draft_date
                &&& post.next_handle == pre.next_handle
            },
        }
    }

    fn delete_selected_notification(&mut self) -> (cancelled: Option<u64>)
        requires
            old(self).wf(),
        ensures
            final(self).wf(),
            App::delete_rel(*old(self), *final(self), cancelled),
            cancelled == App::deleted_handle(*old(self)),
    {
        match self.selected {
            None => None,
            Some(i) => {
                let removed = self.notifications.remove(i);
                if self.notifications.is_empty() {
                    self.selected = None;
                } else {
                    let index_to_select: usize = if i == self.notifications.len() {
                        i - 1
                    } else {
                        i
                    };
                    self.selected = Some(index_to_select);
                }
                proof {
                    assert(self.tasks() =~= old(self).tasks().remove(i as int));
                }
                Some(removed.handle)
            },
        }
    }

    /// The task set after removing every task whose handle reports
    /// finished: order kept, finished entries gone.
    pub open spec fn reap_spec(ts: Seq<TaskView>, fin: Seq<u64>) -> Seq<TaskView>
        decreases ts.len(),
    {
        if ts.len() == 0 {
            Seq::empty()
        } else {
            let prev = App::reap_spec(ts.drop_last(), fin);
            if fin.contains(ts.last().handle) {
                prev
            } else {
                prev.push(ts.last())
            }
        }
    }

    /// Exactly what a cleanup pass does, given the set of handles whose
    /// timers have fired: those tasks leave the set, the selection is
    /// clamped, and nothing else moves.
    pub open spec fn clean_rel(pre: App, post: App, fin: Seq<u64>) -> bool {
        &&& post.tasks() == App::reap_spec(pre.tasks(), fin)
        &&& post.selected == App::clamped_selection(pre.selected, post.tasks().len())
        &&& post.should_quit == pre.should_quit
        &&& post.input_mode == pre.input_mode
        &&& post.input_field == pre.input_field
        &&& post.draft_title == pre.draft_title
        &&& post.draft_body == pre.draft_body
        &&& post.draft_date == pre.draft_date
        &&& post.next_handle == pre.next_handle
    }

    /// Removes every task whose handle is in `finished`. The caller polls
    /// the timers and reports which ones have fired; removal itself is this
    /// lazy pass, run before each snapshot for display or persistence.
    pub fn clean_sent_notifications(&mut self, finished: &Vec<u64>)
        requires
            old(self).wf(),
        ensures
            final(self).wf(),
            App::clean_rel(*old(self), *final(self), finished@),
    {
        let ghost orig = old(self).notifications@;
        proof {
            assert(forall|p: int|
                0 <= p < orig.len() ==> #[trigger] orig[p]@ == old(self).tasks()[p]);
        }
        let mut kept: Vec<NotificationTask> = Vec::new();
        let ghost mut k: int = 0;
        while self.notifications.len() > 0
            invariant
                0 <= k <= orig.len(),
                self.notifications@ == orig.subrange(k, orig.len() as int),
                kept@.map_values(|t: NotificationTask| t@) == App::reap_spec(
                    orig.subrange(0, k).map_values(|t: NotificationTask| t@),
                    finished@,
                ),
                forall|p: int, q: int|
                    0 <= p < q < kept@.len() ==> kept@[p]@.handle != kept@[q]@.handle,
                forall|p: int, q: int|
                    0 <= p < kept@.len() && 0 <= q < self.notifications@.len()
                        ==> kept@[p]@.handle != self.notifications@[q]@.handle,
                forall|p: int, q: int|
                    0 <= p < q < self.notifications@.len() ==> self.notifications@[p]@.handle
                        != self.notifications@[q]@.handle,
                forall|p: int|
                    0 <= p < kept@.len() ==> #[trigger] kept@[p]@.handle < old(self).next_handle,
                forall|p: int|
                    0 <= p < self.notifications@.len() ==> #[trigger] self.notifications@[p]@.handle
                        < old(self).next_handle,
                self.selected == old(self).selected,
                self.should_quit == old(self).should_quit,
                self.input_mode == old(self).input_mode,
                self.input_field == old(self).input_field,
                self.draft_title == old(self).draft_title,
                self.draft_body == old(self).draft_body,
                self.draft_date == old(self).draft_date,
                self.next_handle == old(self).next_handle,
            decreases self.notifications@.len(),
        {
            let t = self.notifications.remove(0);
            let is_done = contains_handle(finished, t.handle);
            proof {
                assert(t@ == orig[k]@);
                assert(orig.subrange(0, k + 1).drop_last() =~= orig.subrange(0, k));
                assert(orig.subrange(0, k + 1).map_values(|t: NotificationTask| t@).drop_last()
                    =~= orig.subrange(0, k).map_values(|t: NotificationTask| t@));
            }
            if !is_done {
                kept.push(t);
            }
            proof {
                k = k + 1;
                assert(self.notifications@ =~= orig.subrange(k, orig.len() as int));
                assert(kept@.map_values(|t: NotificationTask| t@) =~= App::reap_spec(
                    orig.subrange(0, k).map_values(|t: NotificationTask| t@),
                    finished@,
                ));
            }
        }
        proof {
            assert(orig.subrange(0, orig.len() as int) =~= orig);
        }
        self.notifications = kept;
        match self.selected {
            None => {},
            Some(i) => {
                if self.notifications.is_empty() {
                    self.selected = None;
                } else if i >= self.notifications.len() {
                    self.selected = Some(self.notifications.len() - 1);
                }
            },
        }
        proof {
            assert(self.tasks() =~= App::reap_spec(old(self).tasks(), finished@));
        }
    }

    /// The handle of the timer a commit of the current draft would start:
    /// present exactly when the date buffer parses, the fire time is still
    /// ahead of `now`, and a fresh handle is available.
    pub open spec fn spawned_handle(pre: App, now: DateTime) -> Option<u64> {
        match parse_draft_spec(pre.draft_date@) {
            None => None,
            Some(d) => if now.spec_lt(d) && pre.next_handle < u64::MAX {
                Some(pre.next_handle)
            } else {
                None
            },
        }
    }

    /// Exactly what committing the draft does, with `mode` the input mode
    /// left behind. On a date buffer that does not parse, or a fire time
    /// already due, nothing changes but the mode and the buffers keep their
    /// text. On success the three buffers drain and the new task joins the
    /// end of the set.
    pub open spec fn commit_rel(pre: App, now: DateTime, post: App, mode: InputMode) -> bool {
        match parse_draft_spec(pre.draft_date@) {
            None => post == (App { input_mode: mode, ..pre }),
            Some(d) => if now.spec_lt(d) && pre.next_handle < u64::MAX {
                &&& post.tasks() == pre.tasks().push(
                    TaskView {
                        content: (ContentView {
                            title: pre.draft_title@,
                            body: pre.draft_body@,
                            date: d,
                        }),
                        handle: pre.next_handle,
                    },
                )
                &&& post.next_handle == pre.next_handle + 1
                &&& post.draft_title@ == Seq::<char>::empty()
                &&& post.draft_body@ == Seq::<char>::empty()
                &&& post.draft_date@ == Seq::<char>::empty()
                &&& post.selected == pre.selected
                &&& post.should_quit == pre.should_quit
                &&& post.input_mode == mode
                &&& post.input_field == pre.input_field
            } else {
                post == (App { input_mode: mode, ..pre })
            },
        }
    }

    fn add_notification(&mut self, now: DateTime) -> (spawned: Option<u64>)
        requires
            old(self).wf(),
        ensures
            final(self).wf(),
            App::commit_rel(*old(self), now, *final(self), old(self).input_mode),
            spawned == App::spawned_handle(*old(self), now),
    {
        let parsed = parse_draft(&self.draft_date);
        match parsed {
            None => None,
            Some(date) => {
                if self.next_handle == u64::MAX {
                    return None;
                }
                let notification = NotificationContent {
                    title: clone_chars(&self.draft_title),
                    body: clone_chars(&self.draft_body),
                    date,
                };
                match prepare_notification_sending_task(notification, now, self.next_handle) {
                    Ok(task) => {
                        let handle = self.next_handle;
                        self.notifications.push(task);
                        self.next_handle = self.next_handle + 1;
                        self.draft_title.clear();
                        self.draft_body.clear();
                        self.draft_date.clear();
                        proof {
                            assert(self.tasks() =~= old(self).tasks().push(
                                TaskView {
                                    content: ContentView {
                                        title: old(self).draft_title@,
                                        body: old(self).draft_body@,
                                        date,
                                    },
                                    handle,
                                },
                            ));
                        }
                        Some(handle)
                    },
                    Err(_) => None,
                }
            },
        }
    }

    /// All non-draft state agrees between `pre` and `post`.
    pub open spec fn same_except_drafts(pre: App, post: App) -> bool {
        &&& post.notifications == pre.notifications
        &&& post.selected == pre.selected
        &&& post.should_quit == pre.should_quit
        &&& post.input_mode == pre.input_mode
        &&& post.input_field == pre.input_field
        &&& post.next_handle == pre.next_handle
    }

    /// Typing `c` in the add form: the character lands at the end of the
    /// buffer of the active field, and nothing else moves.
    pub open spec fn draft_push_rel(pre: App, post: App, c: char) -> bool {
        &&& App::same_except_drafts(pre, post)
        &&& match pre.input_field {
            InputField::Title => {
                &&& post.draft_title@ == pre.draft_title@.push(c)
                &&& post.draft_body == pre.draft_body
                &&& post.draft_date == pre.draft_date
            },
            InputField::Body => {
                &&& post.draft_title == pre.draft_title
                &&& post.draft_body@ == pre.draft_body@.push(c)
                &&& post.draft_date == pre.draft_date
            },
            InputField::Date => {
                &&& post.draft_title == pre.draft_title
                &&& post.draft_body == pre.draft_body
                &&& post.draft_date@ == pre.draft_date@.push(c)
            },
        }
    }

    /// A backspace in the add form: the last character of the active
    /// field's buffer goes, if there is one.
    pub open spec fn draft_pop_rel(pre: App, post: App) -> bool {
        &&& App::same_except_drafts(pre, post)
        &&& match pre.input_field {
            InputField::Title => {
                &&& post.draft_title@ == popped(pre.draft_title@)
                &&& post.draft_body == pre.draft_body
                &&& post.draft_date == pre.draft_date
            },
            InputField::Body => {
                &&& post.draft_title == pre.draft_title
                &&& post.draft_body@ == popped(pre.draft_body@)
                &&& post.draft_date == pre.draft_date
            },
            InputField::Date => {
                &&& post.draft_title == pre.draft_title
                &&& post.draft_body == pre.draft_body
                &&& post.draft_date@ == popped(pre.draft_date@)
            },
        }
    }

    /// The command that stops the timer of a deleted task, if one was
    /// deleted.
    pub open spec fn cancel_command(h: Option<u64>) -> Option<TimerCommand> {
        match h {
            None => None,
            Some(handle) => Some(TimerCommand::Cancel { handle }),
        }
    }

    /// The command that starts the timer of a newly committed task, if one
    /// was scheduled.
    pub open spec fn spawn_command(h: Option<u64>) -> Option<TimerCommand> {
        match h {
            None => None,
            Some(handle) => Some(TimerCommand::Spawn { handle }),
        }
    }

    /// The complete transition table of the controller, one arm per
    /// (mode, key) pair; `post` and `cmd` are pinned down in every arm.
    pub open spec fn on_key_rel(
        pre: App,
        key: Key,
        now: DateTime,
        post: App,
        cmd: Option<TimerCommand>,
    ) -> bool {
        match (pre.input_mode, key) {
            (InputMode::Navigation, Key::Up) => post == (App {
                selected: App::selection_up(pre.selected, pre.notifications@.len()),
                ..pre
            }) && cmd is None,
            (InputMode::Navigation, Key::Down) => post == (App {
                selected: App::selection_down(pre.selected, pre.notifications@.len()),
                ..pre
            }) && cmd is None,
            (InputMode::Navigation, Key::Char(c)) => if c == 'x' {
                &&& App::delete_rel(pre, post, App::deleted_handle(pre))
                &&& cmd == App::cancel_command(App::deleted_handle(pre))
            } else if c == 'a' {
                post == (App { input_mode: InputMode::Add, ..pre }) && cmd is None
            } else if c == 'q' {
                post == (App { should_quit: true, ..pre }) && cmd is None
            } else {
                post == pre && cmd is None
            },
            (InputMode::Add, Key::Up) => post == (App {
                input_field: pre.input_field.previous_spec(),
                ..pre
            }) && cmd is None,
            (InputMode::Add, Key::Down) => post == (App {
                input_field: pre.input_field.next_spec(),
                ..pre
            }) && cmd is None,
            (InputMode::Add, Key::Enter) => {
                &&& App::commit_rel(pre, now, post, InputMode::Navigation)
                &&& cmd == App::spawn_command(App::spawned_handle(pre, now))
            },
            (InputMode::Add, Key::Esc) => post == (App {
                input_mode: InputMode::Navigation,
                ..pre
            }) && cmd is None,
            (InputMode::Add, Key::Char(c)) => App::draft_push_rel(pre, post, c) && cmd is None,
            (InputMode::Add, Key::Backspace) => App::draft_pop_rel(pre, post) && cmd is None,
            _ => post == pre && cmd is None,
        }
    }

    /// Feeds one key press to the controller. `now` is the clock reading
    /// the press arrived with; it only matters to a commit, which must
    /// decide whether the drafted fire time is still ahead. The returned
    /// command tells the caller which timer to start or stop.
    pub fn on_key(&mut self, key: Key, now: DateTime) -> (cmd: Option<TimerCommand>)
        requires
            old(self).wf(),
        ensures
            final(self).wf(),
            App::on_key_rel(*old(self), key, now, *final(self), cmd),
    {
        match (self.input_mode, key) {
            (InputMode::Navigation, Key::Up) => {
                self.on_up();
                proof {
                    App::lemma_wf_same_tasks(*old(self), *self);
                }
                None
            },
            (InputMode::Navigation, Key::Down) => {
                self.on_down();
                proof {
                    App::lemma_wf_same_tasks(*old(self), *self);
                }
                None
            },
            (InputMode::Navigation, Key::Char(c)) => {
                if c == 'x' {
                    let cancelled = self.delete_selected_notification();
                    match cancelled {
                        None => None,
                        Some(handle) => Some(TimerCommand::Cancel { handle }),
                    }
                } else if c == 'a' {
                    self.input_mode = InputMode::Add;
                    proof {
                        App::lemma_wf_same_tasks(*old(self), *self);
                    }
                    None
                } else if c == 'q' {
                    self.should_quit = true;
                    proof {
                        App::lemma_wf_same_tasks(*old(self), *self);
                    }
                    None
                } else {
                    None
                }
            },
            (InputMode::Add, Key::Up) => {
                self.input_field = self.input_field.previous();
                proof {
                    App::lemma_wf_same_tasks(*old(self), *self);
                }
                None
            },
            (InputMode::Add, Key::Down) => {
                self.input_field = self.input_field.next();
                proof {
                    App::lemma_wf_same_tasks(*old(self), *self);
                }
                None
            },
            (InputMode::Add, Key::Enter) => {
                let spawned = self.add_notification(now);
                let ghost mid = *self;
                self.input_mode = InputMode::Navigation;
                proof {
                    App::lemma_wf_same_tasks(mid, *self);
                }
                match spawned {
                    None => None,
                    Some(handle) => Some(TimerCommand::Spawn { handle }),
                }
            },
            (InputMode::Add, Key::Esc) => {
                self.input_mode = InputMode::Navigation;
                proof {
                    App::lemma_wf_same_tasks(*old(self), *self);
                }
                None
            },
            (InputMode::Add, Key::Char(c)) => {
                match self.input_field {
                    InputField::Title => self.draft_title.push(c),
                    InputField::Body => self.draft_body.push(c),
                    InputField::Date => self.draft_date.push(c),
                }
                proof {
                    App::lemma_wf_same_tasks(*old(self), *self);
                }
                None
            },
            (InputMode::Add, Key::Backspace) => {
                match self.input_field {
                    InputField::Title => {
                        self.draft_title.pop();
                    },
                    InputField::Body => {
                        self.draft_body.pop();
                    },
                    InputField::Date => {
                        self.draft_date.pop();
                    },
                }
                proof {
                    App::lemma_wf_same_tasks(*old(self), *self);
                }
                None
            },
            _ => None,
        }
    }

    /// The task set a load builds from the stored reminders, in the order
    /// they arrive: one task per reminder whose fire time is still ahead of
    /// `now`, with handles counted up from zero; the rest are dropped.
    pub open spec fn scheduled_at_load(cs: Seq<ContentView>, now: DateTime) -> Seq<TaskView>
        decreases cs.len(),
    {
        if cs.len() == 0 {
            Seq::empty()
        } else {
            let prev = App::scheduled_at_load(cs.drop_last(), now);
            if now.spec_lt(cs.last().date) {
                prev.push(TaskView { content: cs.last(), handle: prev.len() as u64 })
            } else {
                prev
            }
        }
    }

    /// Builds the controller from the reminders the store handed back.
    /// Reminders already due at `now` never become tasks; the future ones
    /// keep their given order. The interface starts in navigation mode with
    /// nothing selected and empty draft buffers.
    pub fn new(notifications: Vec<NotificationContent>, now: DateTime) -> (app: App)
        ensures
            app.wf(),
            app.tasks() == App::scheduled_at_load(
                notifications@.map_values(|c: NotificationContent| c@),
                now,
            ),
            app.selected is None,
            !app.should_quit,
            app.input_mode == InputMode::Navigation,
            app.input_field == InputField::Title,
            app.draft_title@ == Seq::<char>::empty(),
            app.draft_body@ == Seq::<char>::empty(),
            app.draft_date@ == Seq::<char>::empty(),
            app.next_handle == app.tasks().len(),
    {
        let ghost cs = notifications@.map_values(|c: NotificationContent| c@);
        let mut tasks: Vec<NotificationTask> = Vec::new();
        let mut i: usize = 0;
        while i < notifications.len()
            invariant
                i <= notifications.len(),
                cs == notifications@.map_values(|c: NotificationContent| c@),
                tasks@.map_values(|t: NotificationTask| t@) == App::scheduled_at_load(
                    cs.take(i as int),
                    now,
                ),
                tasks@.len() <= i,
                forall|k: int|
                    0 <= k < tasks@.len() ==> #[trigger] tasks@[k]@.handle == k,
            decreases notifications.len() - i,
        {
            let content = notifications[i].clone();
            let handle: u64 = tasks.len() as u64;
            proof {
                assert(content@ == cs[i as int]);
                assert(cs.take(i + 1).drop_last() =~= cs.take(i as int));
                assert(cs.take(i + 1).last() == cs[i as int]);
            }
            match prepare_notification_sending_task(content, now, handle) {
                Ok(task) => {
                    tasks.push(task);
                    proof {
                        assert(tasks@.map_values(|t: NotificationTask| t@)
                            =~= App::scheduled_at_load(cs.take(i + 1), now));
                    }
                },
                Err(_) => {},
            }
            i = i + 1;
        }
        proof {
            assert(cs.take(notifications@.len() as int) =~= cs);
        }
        let next_handle: u64 = tasks.len() as u64;
        let app = App {
            notifications: tasks,
            selected: None,
            should_quit: false,
            input_mode: InputMode::Navigation,
            input_field: InputField::Title,
            draft_title: Vec::new(),
            draft_body: Vec::new(),
            draft_date: Vec::new(),
            next_handle,
        };
        app
    }

    /// A read-only snapshot of the reminders in the task set, in set order,
    /// for display or persistence. Neither the selection nor the ordering
    /// moves.
    pub fn get_notifications_content(&self) -> (r: Vec<NotificationContent>)
        ensures
            r@.map_values(|c: NotificationContent| c@) == self.tasks().map_values(
                |t: TaskView| t.content,
            ),
    {
        let mut r: Vec<NotificationContent> = Vec::new();
        let mut i: usize = 0;
        while i < self.notifications.len()
            invariant
                i <= self.notifications.len(),
                r@.len() == i,
                forall|k: int| 0 <= k < i ==> #[trigger] r@[k]@ == self.notifications@[k]@.content,
            decreases self.notifications.len() - i,
        {
            let c = self.notifications[i].content.clone();
            r.push(c);
            i = i + 1;
        }
        proof {
            assert(r@.map_values(|c: NotificationContent| c@) =~= self.tasks().map_values(
                |t: TaskView| t.content,
            ));
        }
        r
    }

    fn on_up(&mut self)
        requires
            old(self).wf(),
        ensures
            *final(self) == (App {
                selected: App::selection_up(old(self).selected, old(self).notifications@.len()),
                ..*old(self)
            }),
    {
        if self.notifications.is_empty() {
            return ;
        }
        let i: usize = match self.selected {
            Some(i) => if i > 0 {
                i - 1
            } else {
                self.notifications.len() - 1
            },
            None => 0,
        };
        self.selected = Some(i);
    }

    fn on_down(&mut self)
        requires
            old(self).wf(),
        ensures
            *final(self) == (App {
                selected: App::selection_down(old(self).selected, old(self).notifications@.len()),
                ..*old(self)
            }),
    {
        if self.notifications.is_empty() {
            return ;
        }
        let i: usize = match self.selected {
            Some(i) => if i >= self.notifications.len() - 1 {
                0
            } else {
                i + 1
            },
            None => 0,
        };
        self.selected = Some(i);
    }
}

/// A reminder already due when a load happens never becomes a task: every
/// task the load builds has a fire time strictly ahead of the clock, and
/// the set never grows past the number of reminders offered.
pub proof fn lemma_load_schedules_only_future(cs: Seq<ContentView>, now: DateTime)
    ensures
        forall|k: int|
            0 <= k < App::scheduled_at_load(cs, now).len() ==> now.spec_lt(
                #[trigger] App::scheduled_at_load(cs, now)[k].content.date,
            ),
        App::scheduled_at_load(cs, now).len() <= cs.len(),
    decreases cs.len(),
{
    if cs.len() > 0 {
        lemma_load_schedules_only_future(cs.drop_last(), now);
    }
}

/// A reminder already due when a commit happens never becomes a task: if
/// the drafted fire time is not strictly ahead of the clock, the task set
/// does not change, and in particular does not grow.
pub proof fn lemma_already_due_not_added(pre: App, now: DateTime, post: App, mode: InputMode)
    requires
        App::commit_rel(pre, now, post, mode),
        parse_draft_spec(pre.draft_date@) matches Some(d) && !now.spec_lt(d),
    ensures
        post.tasks() == pre.tasks(),
{
}

/// Selection navigation over a non-empty list always lands inside
/// `[0, len - 1]`, and wraps at both ends: Up from the first entry lands on
/// the last, Down from the last lands on the first.
pub proof fn lemma_navigation_in_bounds(sel: Option<usize>, len: nat)
    requires
        0 < len <= usize::MAX,
        sel matches Some(i) ==> i < len,
    ensures
        App::selection_up(sel, len) matches Some(j) && j < len,
        App::selection_down(sel, len) matches Some(j) && j < len,
        sel == Some(0usize) ==> App::selection_up(sel, len) == Some((len - 1) as usize),
        sel == Some((len - 1) as usize) ==> App::selection_down(sel, len) == Some(0usize),
{
}

/// One navigation press: Up moves towards the head of the list, Down
/// towards its tail, both with wraparound.
pub open spec fn nav_step(sel: Option<usize>, len: nat, up: bool) -> Option<usize> {
    if up {
        App::selection_up(sel, len)
    } else {
        App::selection_down(sel, len)
    }
}

/// Where a whole sequence of Up (`true`) and Down (`false`) presses leaves
/// the selection.
pub open spec fn nav_run(sel: Option<usize>, len: nat, presses: Seq<bool>) -> Option<usize>
    decreases presses.len(),
{
    if presses.len() == 0 {
        sel
    } else {
        nav_step(nav_run(sel, len, presses.drop_last()), len, presses.last())
    }
}

/// Any sequence of Up and Down presses over a non-empty list keeps the
/// selection inside `[0, len - 1]`; after at least one press something is
/// always selected.
pub proof fn lemma_navigation_run_in_bounds(sel: Option<usize>, len: nat, presses: Seq<bool>)
    requires
        0 < len <= usize::MAX,
        sel matches Some(i) ==> i < len,
    ensures
        nav_run(sel, len, presses) matches Some(j) ==> j < len,
        presses.len() > 0 ==> nav_run(sel, len, presses) is Some,
    decreases presses.len(),
{
    if presses.len() > 0 {
        lemma_navigation_run_in_bounds(sel, len, presses.drop_last());
    }
}

/// The selection policy after a delete at index `i`: deleting below the
/// last entry keeps the selection at `i`, now naming the task that stood at
/// `i + 1`; deleting the last entry of several moves it to `i - 1`; deleting
/// the sole entry clears it.
pub proof fn lemma_delete_selection_policy(pre: App, post: App, cancelled: Option<u64>, i: usize)
    requires
        pre.wf(),
        pre.selected == Some(i),
        App::delete_rel(pre, post, cancelled),
    ensures
        i < pre.tasks().len() - 1 ==> post.selected == Some(i) && post.tasks()[i as int]
            == pre.tasks()[i + 1],
        i == pre.tasks().len() - 1 && i > 0 ==> post.selected == Some((i - 1) as usize),
        pre.tasks().len() == 1 ==> post.selected is None,
{
}

/// A cancelled task is gone for good: no task of the new set answers to the
/// cancelled handle, so its timer can never fire out of the set.
pub proof fn lemma_cancelled_task_gone(pre: App, post: App, h: u64)
    requires
        pre.wf(),
        App::delete_rel(pre, post, Some(h)),
    ensures
        forall|k: int| 0 <= k < post.tasks().len() ==> #[trigger] post.tasks()[k].handle != h,
{
}

/// Reaping is idempotent: a second pass with the same finished handles
/// finds nothing left to remove.
pub proof fn lemma_reap_idempotent(ts: Seq<TaskView>, fin: Seq<u64>)
    ensures
        App::reap_spec(App::reap_spec(ts, fin), fin) == App::reap_spec(ts, fin),
    decreases ts.len(),
{
    if ts.len() > 0 {
        lemma_reap_idempotent(ts.drop_last(), fin);
        let prev = App::reap_spec(ts.drop_last(), fin);
        if !fin.contains(ts.last().handle) {
            assert(prev.push(ts.last()).drop_last() =~= prev);
            assert(prev.push(ts.last()).last() == ts.last());
        }
    }
}

/// A second cleanup pass with the same finished handles, and no firing in
/// between, is a no-op: the task set and the selection stay put.
pub proof fn lemma_clean_twice_is_once(a: App, b: App, c: App, fin: Seq<u64>)
    requires
        App::clean_rel(a, b, fin),
        App::clean_rel(b, c, fin),
    ensures
        c.tasks() == b.tasks(),
        c.selected == b.selected,
{
    lemma_reap_idempotent(a.tasks(), fin);
}

} // verus!
