use crate::keybind::KeybindPane;
use std::collections::VecDeque;
use vstd::prelude::*;

verus! {

/// An item that the timer applies, one per tick.
#[derive(Debug, Clone, PartialEq, Eq)]
pub enum QueuedTimerCommand {
    /// Characters written to the focused pane's input.
    WriteString(String),
    /// Raw bytes written to the focused pane's input.
    WriteBytes(Vec<u8>),
    /// Moves the focus back to the workspace's editor pane.
    FocusEditor,
}

/// An action that waits for the next focus change, which reveals the
/// identity of a pane that was just opened.
#[derive(Debug, Clone, PartialEq, Eq)]
pub enum QueuedFocusCommand {
    RenamePane(String),
    MarkKeybindPane(KeybindPane),
    MarkTerminalPane(String),
}

/// The state of a command queue: the timer items in order, the focus items in
/// order, and whether a timer is armed.
pub ghost struct QueueState {
    pub timers: Seq<QueuedTimerCommand>,
    pub focus: Seq<QueuedFocusCommand>,
    pub armed: bool,
}

/// Two queues: one drained one item per timer tick, one drained at once on
/// the next focus change.  At most one timer is armed at a time.
pub struct CommandQueue {
    timer_queue: VecDeque<QueuedTimerCommand>,
    focus_queue: VecDeque<QueuedFocusCommand>,
    timer_set: bool,
}

/// A timer is armed exactly while timer items wait.
pub open spec fn queue_wf(q: QueueState) -> bool {
    q.armed == (q.timers.len() > 0)
}

/// The item that a tick applies.
pub open spec fn tick_item(q: QueueState) -> Option<QueuedTimerCommand> {
    if q.timers.len() > 0 {
        Some(q.timers[0])
    } else {
        None
    }
}

/// The state after a tick: the first timer item is gone, and the timer is
/// armed again only if items remain.
pub open spec fn tick(q: QueueState) -> QueueState {
    let rest = if q.timers.len() > 0 {
        q.timers.drop_first()
    } else {
        q.timers
    };
    QueueState { timers: rest, focus: q.focus, armed: rest.len() > 0 }
}

/// The state after `k` ticks.
pub open spec fn ticks(q: QueueState, k: nat) -> QueueState
    decreases k,
{
    if k == 0 {
        q
    } else {
        tick(ticks(q, (k - 1) as nat))
    }
}

/// The items that `k` ticks apply, in order.
pub open spec fn tick_items(q: QueueState, k: nat) -> Seq<Option<QueuedTimerCommand>>
    decreases k,
{
    if k == 0 {
        seq![]
    } else {
        tick_items(q, (k - 1) as nat).push(tick_item(ticks(q, (k - 1) as nat)))
    }
}

/// Draining: from a well-formed state with `W` timer items, the first `k <= W`
/// ticks apply the first `k` items in the order they were queued; the timer
/// stays armed for exactly `W` ticks, and after them it is no longer armed and
/// no item is left.
pub proof fn lemma_queue_drains(q: QueueState, k: nat)
    requires
        queue_wf(q),
        k <= q.timers.len(),
    ensures
        ticks(q, k).timers == q.timers.skip(k as int),
        ticks(q, k).focus == q.focus,
        ticks(q, k).armed == (k < q.timers.len()),
        tick_items(q, k) == q.timers.take(k as int).map_values(
            |c: QueuedTimerCommand| Some(c),
        ),
    decreases k,
{
    if k == 0 {
        assert(q.timers.skip(0) =~= q.timers);
        assert(q.timers.take(0).map_values(|c: QueuedTimerCommand| Some(c)) =~= seq![]);
    } else {
        lemma_queue_drains(q, (k - 1) as nat);
        let p = ticks(q, (k - 1) as nat);
        assert(p.timers.len() > 0);
        assert(p.timers.drop_first() =~= q.timers.skip(k as int));
        assert(q.timers.take(k as int).map_values(|c: QueuedTimerCommand| Some(c)) =~= q.timers.take(
            k - 1,
        ).map_values(|c: QueuedTimerCommand| Some(c)).push(Some(q.timers[k - 1])));
    }
}

impl CommandQueue {
    pub closed spec fn state(&self) -> QueueState {
        QueueState { timers: self.timer_queue@, focus: self.focus_queue@, armed: self.timer_set }
    }

    pub open spec fn wf(&self) -> bool {
        queue_wf(self.state())
    }

    pub fn new() -> (r: CommandQueue)
        ensures
            r.wf(),
            r.state().timers.len() == 0,
            r.state().focus.len() == 0,
            !r.state().armed,
    {
        CommandQueue { timer_queue: VecDeque::new(), focus_queue: VecDeque::new(), timer_set: false }
    }

    /// Whether a timer is armed.
    pub fn armed(&self) -> (r: bool)
        ensures
            r == self.state().armed,
    {
        self.timer_set
    }

    /// Arms the timer unless one is armed; returns whether the caller must
    /// now ask the host for a timer.
    fn set_timer(&mut self) -> (arm: bool)
        ensures
            arm == !old(self).timer_set,
            final(self).timer_set,
            final(self).timer_queue == old(self).timer_queue,
            final(self).focus_queue == old(self).focus_queue,
    {
        if !self.timer_set {
            self.timer_set = true;
            true
        } else {
            false
        }
    }

    /// Appends a timer item; returns whether a timer must be armed for it
    /// (none was armed before).
    pub fn queue_timer_command(&mut self, queued_command: QueuedTimerCommand) -> (arm: bool)
        requires
            old(self).wf(),
        ensures
            final(self).wf(),
            final(self).state().timers == old(self).state().timers.push(queued_command),
            final(self).state().focus == old(self).state().focus,
            arm == !old(self).state().armed,
    {
        let arm = self.set_timer();
        self.timer_queue.push_back(queued_command);
        arm
    }

    pub fn queue_write_string(&mut self, val: String) -> (arm: bool)
        requires
            old(self).wf(),
        ensures
            final(self).wf(),
            final(self).state().timers == old(self).state().timers.push(
                QueuedTimerCommand::WriteString(val),
            ),
            final(self).state().focus == old(self).state().focus,
            arm == !old(self).state().armed,
    {
        self.queue_timer_command(QueuedTimerCommand::WriteString(val))
    }

    pub fn queue_write_bytes(&mut self, val: Vec<u8>) -> (arm: bool)
        requires
            old(self).wf(),
        ensures
            final(self).wf(),
            final(self).state().timers == old(self).state().timers.push(
                QueuedTimerCommand::WriteBytes(val),
            ),
            final(self).state().focus == old(self).state().focus,
            arm == !old(self).state().armed,
    {
        self.queue_timer_command(QueuedTimerCommand::WriteBytes(val))
    }

    /// Queues the escape byte, which leaves any open input mode.
    pub fn queue_esc(&mut self) -> (arm: bool)
        requires
            old(self).wf(),
        ensures
            final(self).wf(),
            final(self).state().timers.len() == old(self).state().timers.len() + 1,
            final(self).state().timers.take(old(self).state().timers.len() as int) == old(
                self,
            ).state().timers,
            final(self).state().timers.last() matches QueuedTimerCommand::WriteBytes(b) && b@
                == seq![27u8],
            final(self).state().focus == old(self).state().focus,
            arm == !old(self).state().armed,
    {
        let r = self.queue_write_bytes(vec![27u8]);
        assert(self.state().timers.take(old(self).state().timers.len() as int) =~= old(
            self,
        ).state().timers);
        r
    }

    /// Queues the carriage return, which submits.
    pub fn queue_enter(&mut self) -> (arm: bool)
        requires
            old(self).wf(),
        ensures
            final(self).wf(),
            final(self).state().timers.len() == old(self).state().timers.len() + 1,
            final(self).state().timers.take(old(self).state().timers.len() as int) == old(
                self,
            ).state().timers,
            final(self).state().timers.last() matches QueuedTimerCommand::WriteBytes(b) && b@
                == seq![13u8],
            final(self).state().focus == old(self).state().focus,
            arm == !old(self).state().armed,
    {
        let r = self.queue_write_bytes(vec![13u8]);
        assert(self.state().timers.take(old(self).state().timers.len() as int) =~= old(
            self,
        ).state().timers);
        r
    }

    pub fn queue_focus_command(&mut self, queued_command: QueuedFocusCommand)
        requires
            old(self).wf(),
        ensures
            final(self).wf(),
            final(self).state().focus == old(self).state().focus.push(queued_command),
            final(self).state().timers == old(self).state().timers,
            final(self).state().armed == old(self).state().armed,
    {
        self.focus_queue.push_back(queued_command);
    }

    /// One timer tick: removes and returns the first timer item, and reports
    /// whether the timer must be armed again because items remain.
    pub fn dequeue_timer_command(&mut self) -> (r: (Option<QueuedTimerCommand>, bool))
        requires
            old(self).wf(),
        ensures
            final(self).wf(),
            final(self).state() == tick(old(self).state()),
            r.0 == tick_item(old(self).state()),
            r.1 == final(self).state().armed,
    {
        self.timer_set = false;
        let res = self.timer_queue.pop_front();
        let mut rearm = false;
        if self.timer_queue.len() > 0 {
            rearm = self.set_timer();
        }
        (res, rearm)
    }

    pub fn dequeue_focus_command(&mut self) -> (r: Option<QueuedFocusCommand>)
        requires
            old(self).wf(),
        ensures
            final(self).wf(),
            r == (if old(self).state().focus.len() > 0 {
                Some(old(self).state().focus[0])
            } else {
                None
            }),
            final(self).state().focus == (if old(self).state().focus.len() > 0 {
                old(self).state().focus.drop_first()
            } else {
                old(self).state().focus
            }),
            final(self).state().timers == old(self).state().timers,
            final(self).state().armed == old(self).state().armed,
    {
        self.focus_queue.pop_front()
    }
}

} // verus!
