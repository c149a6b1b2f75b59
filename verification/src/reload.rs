//! The reload supervisor: when a change of the configuration file leads to
//! a reload.
//!
//! The supervisor waits one quiet period after the first change of the
//! file's content and reloads once when it is over, however many changes
//! came in between.

use vstd::prelude::*;

verus! {

/// The length of the quiet period, in seconds.
pub const DEBOUNCE_SECONDS: u64 = 2;

/// What a modification of a file changed.
#[derive(Debug, Clone, Copy, PartialEq, Eq, Structural)]
pub enum ModifyKind {
    /// Not known.
    Any,
    /// The content.
    Data,
    /// Permissions, times and the like.
    Metadata,
    /// The name.
    Name,
    /// Something else.
    Other,
}

/// What a file-system event reports.
#[derive(Debug, Clone, Copy, PartialEq, Eq, Structural)]
pub enum WatchKind {
    Any,
    Access,
    Create,
    Modify(ModifyKind),
    Remove,
    Other,
}

/// What reaches the supervisor.
#[derive(Debug, Clone, Copy, PartialEq, Eq, Structural)]
pub enum Signal {
    /// The watcher reported an event on the configuration file.
    Changed(WatchKind),
    /// The watcher reported an error.
    WatchFailed,
    /// The quiet period is over.
    TimerFired,
    /// The watcher is gone.
    Closed,
}

/// What the supervisor orders.
#[derive(Debug, Clone, Copy, PartialEq, Eq, Structural)]
pub enum Order {
    /// Start a timer of [`DEBOUNCE_SECONDS`] seconds.
    Arm,
    /// Read the configuration again and put it in place.
    Reload,
    /// End the supervision.
    Stop,
    /// Nothing; go on waiting.
    Nothing,
}

/// Whether an event reports that the content of the file changed.
pub open spec fn content_modified(kind: WatchKind) -> bool {
    kind == WatchKind::Modify(ModifyKind::Data)
}

/// The supervisor after a signal, and what it orders. `armed` says whether a
/// timer is pending.
///
/// A change of content arms the timer where none is pending; while one is
/// pending, events are ignored and the timer runs on untouched. The timer
/// leads to one reload.
pub open spec fn step(armed: bool, signal: Signal) -> (bool, Order) {
    match signal {
        Signal::Changed(kind) => if !armed && content_modified(kind) {
            (true, Order::Arm)
        } else {
            (armed, Order::Nothing)
        },
        Signal::WatchFailed => (armed, Order::Nothing),
        Signal::TimerFired => if armed {
            (false, Order::Reload)
        } else {
            (false, Order::Nothing)
        },
        Signal::Closed => (armed, Order::Stop),
    }
}

/// The supervisor of the configuration file.
#[derive(Debug)]
pub struct Supervisor {
    armed: bool,
}

impl Supervisor {
    /// Whether a timer is pending.
    pub closed spec fn armed_spec(&self) -> bool {
        self.armed
    }

    /// A supervisor with no timer pending.
    pub fn new() -> (r: Self)
        ensures
            !r.armed_spec(),
    {
        Supervisor { armed: false }
    }

    /// Whether a timer is pending.
    #[verifier::when_used_as_spec(armed_spec)]
    pub fn armed(&self) -> (r: bool)
        ensures
            r == self.armed_spec(),
    {
        self.armed
    }

    /// Whether an event reports that the content of the file changed.
    pub fn is_content_modified(kind: WatchKind) -> (r: bool)
        ensures
            r == content_modified(kind),
    {
        match kind {
            WatchKind::Modify(ModifyKind::Data) => true,
            _ => false,
        }
    }

    /// Takes note of `signal` and says what is to be done; see [`step`].
    pub fn handle(&mut self, signal: Signal) -> (order: Order)
        ensures
            (final(self).armed_spec(), order) == step(old(self).armed_spec(), signal),
    {
        match signal {
            Signal::Changed(kind) => {
                if !self.armed && Self::is_content_modified(kind) {
                    self.armed = true;
                    Order::Arm
                } else {
                    Order::Nothing
                }
            },
            Signal::WatchFailed => Order::Nothing,
            Signal::TimerFired => {
                if self.armed {
                    self.armed = false;
                    Order::Reload
                } else {
                    Order::Nothing
                }
            },
            Signal::Closed => Order::Stop,
        }
    }
}

/// Whether a timer is pending after a run of signals.
pub open spec fn run(armed: bool, signals: Seq<Signal>) -> bool
    decreases signals.len(),
{
    if signals.len() == 0 {
        armed
    } else {
        run(step(armed, signals.first()).0, signals.drop_first())
    }
}

/// One if the two orders are the same, else nothing.
pub open spec fn one_if(given: Order, order: Order) -> nat {
    if given == order {
        1
    } else {
        0
    }
}

/// How often `order` is given over a run of signals.
pub open spec fn count(armed: bool, signals: Seq<Signal>, order: Order) -> nat
    decreases signals.len(),
{
    if signals.len() == 0 {
        0
    } else {
        let (next, given) = step(armed, signals.first());
        one_if(given, order) + count(next, signals.drop_first(), order)
    }
}

/// Whether a run of signals holds nothing but reports of the watcher.
pub open spec fn only_reports(signals: Seq<Signal>) -> bool {
    forall|i: int|
        0 <= i < signals.len() ==> #[trigger] signals[i] is Changed || signals[i] is WatchFailed
}

/// Whether one of the signals reports a change of content.
pub open spec fn reports_change(signals: Seq<Signal>) -> bool {
    exists|i: int|
        0 <= i < signals.len() && #[trigger] signals[i] == Signal::Changed(
            WatchKind::Modify(ModifyKind::Data),
        )
}

/// A reload is ordered only when the timer fires, and only by a supervisor
/// whose timer was pending.
pub proof fn law_reload_only_on_timer(armed: bool, signal: Signal)
    requires
        step(armed, signal).1 == Order::Reload,
    ensures
        armed,
        signal == Signal::TimerFired,
        !step(armed, signal).0,
{
}

/// While a timer is pending no other timer is started.
pub proof fn law_no_rearm(signal: Signal)
    ensures
        step(true, signal).1 != Order::Arm,
{
}

proof fn lemma_reports(armed: bool, signals: Seq<Signal>)
    requires
        only_reports(signals),
    ensures
        count(armed, signals, Order::Reload) == 0,
        count(armed, signals, Order::Stop) == 0,
        armed ==> run(armed, signals) && count(armed, signals, Order::Arm) == 0,
        !armed && reports_change(signals) ==> run(armed, signals) && count(
            armed,
            signals,
            Order::Arm,
        ) == 1,
        !armed && !reports_change(signals) ==> !run(armed, signals) && count(
            armed,
            signals,
            Order::Arm,
        ) == 0,
    decreases signals.len(),
{
    if signals.len() > 0 {
        let rest = signals.drop_first();
        let first = signals[0];
        assert(first is Changed || first is WatchFailed);
        assert forall|i: int| 0 <= i < rest.len() implies #[trigger] rest[i] is Changed
            || rest[i] is WatchFailed by {
            assert(rest[i] == signals[i + 1]);
        }
        lemma_reports(step(armed, first).0, rest);
        let data = Signal::Changed(WatchKind::Modify(ModifyKind::Data));
        if reports_change(rest) {
            let i = choose|i: int| 0 <= i < rest.len() && #[trigger] rest[i] == data;
            assert(signals[i + 1] == data);
        }
        if reports_change(signals) && first != data {
            let i = choose|i: int| 0 <= i < signals.len() && #[trigger] signals[i] == data;
            assert(rest[i - 1] == data);
        }
        if first == data {
            assert(signals[0] == data);
        }
    }
}

proof fn lemma_run_push(armed: bool, signals: Seq<Signal>, last: Signal)
    ensures
        run(armed, signals.push(last)) == step(run(armed, signals), last).0,
    decreases signals.len(),
{
    let all = signals.push(last);
    if signals.len() == 0 {
        let next = step(armed, last).0;
        assert(all.drop_first() =~= Seq::<Signal>::empty());
        assert(all.first() == last);
        assert(run(next, Seq::<Signal>::empty()) == next);
        assert(run(armed, signals) == armed);
        assert(run(armed, all) == run(next, all.drop_first()));
    } else {
        let next = step(armed, signals.first()).0;
        assert(all.drop_first() =~= signals.drop_first().push(last));
        assert(all.first() == signals.first());
        lemma_run_push(next, signals.drop_first(), last);
        assert(run(armed, all) == run(next, all.drop_first()));
        assert(run(armed, signals) == run(next, signals.drop_first()));
    }
}

proof fn lemma_count_push(armed: bool, signals: Seq<Signal>, last: Signal, order: Order)
    ensures
        count(armed, signals.push(last), order) == count(armed, signals, order) + one_if(
            step(run(armed, signals), last).1,
            order,
        ),
    decreases signals.len(),
{
    let all = signals.push(last);
    if signals.len() == 0 {
        let pair = step(armed, last);
        assert(all.drop_first() =~= Seq::<Signal>::empty());
        assert(all.first() == last);
        assert(count(pair.0, Seq::<Signal>::empty(), order) == 0);
        assert(count(armed, signals, order) == 0);
        assert(run(armed, signals) == armed);
        assert(count(armed, all, order) == one_if(pair.1, order) + count(
            pair.0,
            all.drop_first(),
            order,
        ));
    } else {
        let pair = step(armed, signals.first());
        assert(all.drop_first() =~= signals.drop_first().push(last));
        assert(all.first() == signals.first());
        lemma_count_push(pair.0, signals.drop_first(), last, order);
        assert(count(armed, all, order) == one_if(pair.1, order) + count(
            pair.0,
            all.drop_first(),
            order,
        ));
        assert(count(armed, signals, order) == one_if(pair.1, order) + count(
            pair.0,
            signals.drop_first(),
            order,
        ));
        assert(run(armed, signals) == run(pair.0, signals.drop_first()));
    }
}

/// However many changes of content the watcher reports before the timer
/// fires, one timer is started and one reload follows: none before the timer
/// fires, one when it does.
pub proof fn law_debounce(burst: Seq<Signal>)
    requires
        only_reports(burst),
        reports_change(burst),
    ensures
        count(false, burst, Order::Arm) == 1,
        count(false, burst, Order::Reload) == 0,
        count(false, burst.push(Signal::TimerFired), Order::Reload) == 1,
        count(false, burst.push(Signal::TimerFired), Order::Arm) == 1,
        !run(false, burst.push(Signal::TimerFired)),
{
    lemma_reports(false, burst);
    lemma_run_push(false, burst, Signal::TimerFired);
    lemma_count_push(false, burst, Signal::TimerFired, Order::Reload);
    lemma_count_push(false, burst, Signal::TimerFired, Order::Arm);
}

} // verus!
