//! Reminder content and the deferred task that wraps it. A deferred task
//! pairs the content with the numeric handle of its one-shot timer; the
//! timer itself runs outside the library, and scheduling decides here, from
//! the clock value it is given, whether a timer may be started at all.
use vstd::prelude::*;

use crate::datetime::DateTime;

verus! {

/// The mathematical value of a [`NotificationContent`].
#[verifier::ext_equal]
pub struct ContentView {
    pub title: Seq<char>,
    pub body: Seq<char>,
    pub date: DateTime,
}

/// One reminder: what to say, and when to fire.
pub struct NotificationContent {
    pub title: Vec<char>,
    pub body: Vec<char>,
    pub date: DateTime,
}

impl View for NotificationContent {
    type V = ContentView;

    open spec fn view(&self) -> ContentView {
        ContentView { title: self.title@, body: self.body@, date: self.date }
    }
}

pub(crate) fn clone_chars(v: &Vec<char>) -> (r: Vec<char>)
    ensures
        r@ == v@,
{
    let mut r: Vec<char> = Vec::new();
    let mut i: usize = 0;
    while i < v.len()
        invariant
            i <= v.len(),
            r@ == v@.subrange(0, i as int),
        decreases v.len() - i,
    {
        r.push(v[i]);
        i = i + 1;
        assert(r@ =~= v@.subrange(0, i as int));
    }
    assert(r@ =~= v@);
    r
}

impl Clone for NotificationContent {
    fn clone(&self) -> (r: Self)
        ensures
            r@ == self@,
    {
        NotificationContent {
            title: clone_chars(&self.title),
            body: clone_chars(&self.body),
            date: self.date,
        }
    }
}

/// The mathematical value of a [`NotificationTask`].
#[verifier::ext_equal]
pub struct TaskView {
    pub content: ContentView,
    pub handle: u64,
}

/// A live deferred task: the reminder it will announce, and the handle of
/// the timer that counts down to its fire time. The timer runs outside the
/// library; the handle names it, so that cancelling and completion can be
/// spoken about per task.
pub struct NotificationTask {
    pub content: NotificationContent,
    pub handle: u64,
}

impl View for NotificationTask {
    type V = TaskView;

    open spec fn view(&self) -> TaskView {
        TaskView { content: self.content@, handle: self.handle }
    }
}

/// Why a reminder could not be scheduled.
#[derive(Clone, Copy, PartialEq, Eq, Structural, Debug)]
pub enum SchedulingError {
    /// The fire time was not strictly in the future, so no timer may start.
    AlreadyDue,
}

/// Decides whether a reminder may become a deferred task. A task is created
/// exactly when the fire time lies strictly after `now`; a reminder already
/// due, or past, is rejected and no task exists for it.
pub fn prepare_notification_sending_task(
    notification: NotificationContent,
    now: DateTime,
    handle: u64,
) -> (r: Result<NotificationTask, SchedulingError>)
    ensures
        now.spec_lt(notification@.date) ==> (r matches Ok(t) && t@.content == notification@
            && t@.handle == handle),
        !now.spec_lt(notification@.date) ==> (r matches Err(e) && e
            == SchedulingError::AlreadyDue),
{
    if now.lt(&notification.date) {
        Ok(NotificationTask { content: notification, handle })
    } else {
        Err(SchedulingError::AlreadyDue)
    }
}

} // verus!
