//! Reacting to changes of the display topology.

use vstd::prelude::*;

verus! {

/// The class and the title of the window that listens.
pub const LISTENER_CLASS: &'static str = "BrightnessDisplayListener";

/// The message that the displays have changed.
pub const WM_DISPLAYCHANGE: u32 = 0x007e;

/// The message that a setting has changed.
pub const WM_SETTINGCHANGE: u32 = 0x001a;

/// The message that the window is being destroyed.
pub const WM_DESTROY: u32 = 0x0002;

/// How many milliseconds the displays are given to settle before they are scanned.
pub const SETTLE_MILLIS: u64 = 350;

/// How many nanoseconds lie between two accepted notifications at least.
pub const DEBOUNCE_NANOS: u128 = 1_200_000_000;

/// What the listener does with a window message.
#[derive(Debug, Clone, Copy, PartialEq, Eq, Structural)]
pub enum MessageAction {
    /// Notify of a change.
    Notify,
    /// End the message loop.
    Quit,
    /// Hand the message to the system.
    Default,
}

/// Decides what the listener does with a window message.
pub fn message_action(msg: u32) -> (r: MessageAction)
    ensures
        r == (if msg == WM_DISPLAYCHANGE || msg == WM_SETTINGCHANGE {
            MessageAction::Notify
        } else if msg == WM_DESTROY {
            MessageAction::Quit
        } else {
            MessageAction::Default
        }),
{
    if msg == WM_DISPLAYCHANGE || msg == WM_SETTINGCHANGE {
        MessageAction::Notify
    } else if msg == WM_DESTROY {
        MessageAction::Quit
    } else {
        MessageAction::Default
    }
}

/// Accepts notifications that are not too close together. The system sends them in bursts, and each
/// accepted one costs a scan.
pub struct Debounce {
    last: Option<u128>,
}

/// Whether a notification is accepted, given when the last one was.
pub open spec fn accepted(last: Option<nat>, now: nat) -> bool {
    match last {
        Some(at) => now - at >= DEBOUNCE_NANOS,
        None => true,
    }
}

impl Debounce {
    /// When the last notification was accepted.
    pub closed spec fn last(&self) -> Option<nat> {
        match self.last {
            Some(at) => Some(at as nat),
            None => None,
        }
    }

    /// No notification was accepted yet.
    pub fn new() -> (r: Self)
        ensures
            r.last() is None,
    {
        Debounce { last: None }
    }
}

/// Decides whether a notification is accepted. Times are in nanoseconds on one clock.
pub fn should_notify(debounce: &mut Debounce, now: u128) -> (r: bool)
    ensures
        r == accepted(old(debounce).last(), now as nat),
        final(debounce).last() == (if r {
            Some(now as nat)
        } else {
            old(debounce).last()
        }),
{
    if let Some(at) = debounce.last {
        if now < at || now - at < DEBOUNCE_NANOS {
            return false;
        }
    }
    debounce.last = Some(now);
    true
}

/// When the last notification of a sequence was accepted.
pub open spec fn last_after(times: Seq<nat>) -> Option<nat>
    decreases times.len(),
{
    if times.len() == 0 {
        None
    } else if accepted(last_after(times.drop_last()), times.last()) {
        Some(times.last())
    } else {
        last_after(times.drop_last())
    }
}

/// Whether the notification at a position of a sequence is accepted.
pub open spec fn accepted_at(times: Seq<nat>, i: int) -> bool {
    accepted(last_after(times.take(i)), times[i])
}

proof fn lemma_last_after(times: Seq<nat>, i: int)
    requires
        forall|a: int, b: int| 0 <= a <= b < times.len() ==> times[a] <= times[b],
        0 <= i < times.len(),
        accepted_at(times, i),
    ensures
        last_after(times) matches Some(t) && t >= times[i],
    decreases times.len(),
{
    let front = times.drop_last();
    if i < front.len() {
        assert(front.take(i) =~= times.take(i));
        lemma_last_after(front, i);
    } else {
        assert(times.take(i) =~= front);
    }
}

/// However many notifications come in, any two that are accepted lie at least the debounce time
/// apart.
pub proof fn accepted_are_apart(times: Seq<nat>, i: int, j: int)
    requires
        forall|a: int, b: int| 0 <= a <= b < times.len() ==> times[a] <= times[b],
        0 <= i < j < times.len(),
        accepted_at(times, i),
        accepted_at(times, j),
    ensures
        times[j] - times[i] >= DEBOUNCE_NANOS,
{
    let before = times.take(j);
    assert(before.take(i) =~= times.take(i));
    assert(before[i] == times[i]);
    lemma_last_after(before, i);
}

/// The first notification of a sequence is accepted, and so is every one that comes at least the
/// debounce time after the last accepted one.
pub proof fn quiet_time_is_enough(times: Seq<nat>, i: int)
    requires
        0 <= i < times.len(),
        match last_after(times.take(i)) {
            Some(t) => times[i] >= t + DEBOUNCE_NANOS,
            None => true,
        },
    ensures
        accepted_at(times, i),
{
}

/// A notification is accepted exactly where one and a fifth of a second have gone by since the last
/// one that was accepted, or where there was none.
pub proof fn notifications_keep_a_distance(at: nat, now: nat)
    ensures
        accepted(None, now),
        accepted(Some(at), now) <==> now >= at + 1_200_000_000,
{
}

} // verus!
