//! The consumer's side of the channel: what a reactor does with each command
//! it takes off the queue, and a recording reactor that does just that and
//! nothing else.
//!
//! A reactor handles one command to the end before it takes the next. `Quit`
//! is a command like any other: what was queued before it is handled first,
//! and what comes after it is never handled.

use vstd::prelude::*;

use crate::msg::Msg;

verus! {

/// Where a reactor is in its life. `Stopped` is final.
#[derive(Clone, Copy, Debug, PartialEq, Eq, Structural)]
pub enum ReactorState {
    Running,
    Stopped,
}

/// What the event loop does with a command it has taken off the queue.
#[derive(Clone, Copy, Debug, PartialEq, Eq, Structural)]
pub enum Action {
    /// Carry the command out and go on.
    Apply,
    /// Stop the event loop.
    Stop,
    /// Drop the command: the reactor has stopped.
    Ignore,
}

/// The state a reactor in `state` is in once it has been handed `msg`.
pub open spec fn next_state(state: ReactorState, msg: Msg) -> ReactorState {
    if msg is Quit {
        ReactorState::Stopped
    } else {
        state
    }
}

/// What a reactor in `state` does with `msg`.
pub open spec fn action_for(state: ReactorState, msg: Msg) -> Action {
    match state {
        ReactorState::Stopped => Action::Ignore,
        ReactorState::Running => if msg is Quit {
            Action::Stop
        } else {
            Action::Apply
        },
    }
}

/// Decides what a reactor in `state` does with `msg`, and the state it is in
/// afterwards.
pub fn decide(state: ReactorState, msg: &Msg) -> (r: (ReactorState, Action))
    ensures
        r.0 == next_state(state, *msg),
        r.1 == action_for(state, *msg),
{
    match state {
        ReactorState::Stopped => (ReactorState::Stopped, Action::Ignore),
        ReactorState::Running => match msg {
            Msg::Quit => (ReactorState::Stopped, Action::Stop),
            _ => (ReactorState::Running, Action::Apply),
        },
    }
}

/// What a recording reactor stands for: its state, and the commands it was
/// handed while it ran, oldest first.
pub struct ReactorView {
    pub state: ReactorState,
    pub seen: Seq<Msg>,
}

/// The reactor `r` after it has been handed `msg`.
pub open spec fn step(r: ReactorView, msg: Msg) -> ReactorView {
    match r.state {
        ReactorState::Stopped => r,
        ReactorState::Running => ReactorView {
            state: next_state(r.state, msg),
            seen: r.seen.push(msg),
        },
    }
}

/// The reactor `r` after it has been handed each of `queue` in turn.
pub open spec fn run(r: ReactorView, queue: Seq<Msg>) -> ReactorView
    decreases queue.len(),
{
    if queue.len() == 0 {
        r
    } else {
        step(run(r, queue.drop_last()), queue.last())
    }
}

/// How often the event loop is told to stop while `r` is handed each of
/// `queue` in turn.
pub open spec fn stops_during(r: ReactorView, queue: Seq<Msg>) -> nat
    decreases queue.len(),
{
    if queue.len() == 0 {
        0
    } else {
        let before = run(r, queue.drop_last());
        let now: nat = if action_for(before.state, queue.last()) == Action::Stop {
            1
        } else {
            0
        };
        stops_during(r, queue.drop_last()) + now
    }
}

/// Whether no command of `queue` is `Quit`.
pub open spec fn no_quit(queue: Seq<Msg>) -> bool {
    forall|i: int| 0 <= i < queue.len() ==> !(#[trigger] queue[i] is Quit)
}

/// A reactor that records the commands it is handed, for as long as it runs.
pub struct Reactor {
    state: ReactorState,
    seen: Vec<Msg>,
}

impl View for Reactor {
    type V = ReactorView;

    closed spec fn view(&self) -> ReactorView {
        ReactorView { state: self.state, seen: self.seen@ }
    }
}

impl Reactor {
    /// A running reactor that has seen nothing yet.
    pub fn new() -> (r: Reactor)
        ensures
            r@.state == ReactorState::Running,
            r@.seen == Seq::<Msg>::empty(),
    {
        Reactor { state: ReactorState::Running, seen: Vec::new() }
    }

    /// Hands the reactor the next command off the queue. The answer tells
    /// the event loop whether this is the moment to stop.
    pub fn notify(&mut self, msg: Msg) -> (action: Action)
        ensures
            final(self)@ == step(old(self)@, msg),
            action == action_for(old(self)@.state, msg),
    {
        let (next, action) = decide(self.state, &msg);
        match action {
            Action::Ignore => {},
            _ => {
                self.state = next;
                self.seen.push(msg);
            },
        }
        action
    }

    /// Whether the reactor still runs.
    pub fn is_running(&self) -> (b: bool)
        ensures
            b == (self@.state == ReactorState::Running),
    {
        match self.state {
            ReactorState::Running => true,
            ReactorState::Stopped => false,
        }
    }

    /// The commands the reactor was handed while it ran, oldest first.
    pub fn seen(&self) -> (s: &Vec<Msg>)
        ensures
            s@ == self@.seen,
    {
        &self.seen
    }
}

/// Handing a reactor one more command is one more step.
pub proof fn lemma_run_push(r: ReactorView, queue: Seq<Msg>, msg: Msg)
    ensures
        run(r, queue.push(msg)) == step(run(r, queue), msg),
{
    assert(queue.push(msg).drop_last() =~= queue);
}

/// Handing a reactor two queues one after the other is handing it both as one.
pub proof fn lemma_run_concat(r: ReactorView, first: Seq<Msg>, second: Seq<Msg>)
    ensures
        run(r, first + second) == run(run(r, first), second),
    decreases second.len(),
{
    if second.len() == 0 {
        assert(first + second =~= first);
    } else {
        lemma_run_concat(r, first, second.drop_last());
        assert((first + second).drop_last() =~= first + second.drop_last());
    }
}

/// A stopped reactor stays as it is, whatever it is handed, and tells the
/// event loop to stop no second time.
pub proof fn lemma_stopped_is_final(r: ReactorView, queue: Seq<Msg>)
    requires
        r.state == ReactorState::Stopped,
    ensures
        run(r, queue) == r,
        stops_during(r, queue) == 0,
    decreases queue.len(),
{
    if queue.len() > 0 {
        lemma_stopped_is_final(r, queue.drop_last());
    }
}

/// First in, first out: a running reactor that is handed a queue without
/// `Quit` has then seen, after what it had seen before, exactly that queue
/// in its order, and still runs.
pub proof fn lemma_fifo(r: ReactorView, queue: Seq<Msg>)
    requires
        r.state == ReactorState::Running,
        no_quit(queue),
    ensures
        run(r, queue).state == ReactorState::Running,
        run(r, queue).seen == r.seen + queue,
        stops_during(r, queue) == 0,
    decreases queue.len(),
{
    if queue.len() == 0 {
        assert(r.seen + queue =~= r.seen);
    } else {
        lemma_fifo(r, queue.drop_last());
        assert(!(queue[queue.len() - 1] is Quit));
        assert((r.seen + queue.drop_last()).push(queue.last()) =~= r.seen + queue);
    }
}

/// Drain before stop: a running reactor that is handed `before`, then `Quit`,
/// then `after`, where `before` holds no `Quit`, has seen all of `before` in
/// its order and then the `Quit`, has stopped, and has seen nothing of
/// `after`.
pub proof fn lemma_drain_before_stop(r: ReactorView, before: Seq<Msg>, after: Seq<Msg>)
    requires
        r.state == ReactorState::Running,
        no_quit(before),
    ensures
        run(r, before.push(Msg::Quit) + after).state == ReactorState::Stopped,
        run(r, before.push(Msg::Quit) + after).seen == (r.seen + before).push(Msg::Quit),
{
    lemma_fifo(r, before);
    lemma_run_push(r, before, Msg::Quit);
    lemma_run_concat(r, before.push(Msg::Quit), after);
    lemma_stopped_is_final(run(r, before.push(Msg::Quit)), after);
}

/// Stopping happens once: however many `Quit` a queue holds, and whoever
/// queued them, the event loop is told to stop exactly once if the reactor
/// ran and the queue holds a `Quit`, and not at all otherwise.
pub proof fn lemma_stops_once(r: ReactorView, queue: Seq<Msg>)
    ensures
        stops_during(r, queue) == if r.state == ReactorState::Running && !no_quit(queue) {
            1nat
        } else {
            0nat
        },
    decreases queue.len(),
{
    if r.state == ReactorState::Stopped {
        lemma_stopped_is_final(r, queue);
    } else if no_quit(queue) {
        lemma_fifo(r, queue);
    } else {
        let i = choose|i: int| 0 <= i < queue.len() && queue[i] is Quit;
        let head = queue.drop_last();
        if no_quit(head) {
            lemma_fifo(r, head);
            if i < queue.len() - 1 {
                assert(head[i] is Quit);
            }
        } else {
            lemma_stops_once(r, head);
            lemma_quit_stops(r, head);
        }
    }
}

/// A reactor that has been handed a `Quit` has stopped.
pub proof fn lemma_quit_stops(r: ReactorView, queue: Seq<Msg>)
    requires
        !no_quit(queue),
    ensures
        run(r, queue).state == ReactorState::Stopped,
    decreases queue.len(),
{
    let head = queue.drop_last();
    if queue.last() is Quit {
    } else {
        let i = choose|i: int| 0 <= i < queue.len() && queue[i] is Quit;
        assert(head[i] is Quit);
        lemma_quit_stops(r, head);
    }
}

} // verus!
