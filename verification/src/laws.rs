use vstd::prelude::*;

use crate::keys::{named_key, lemma_filter_distinct, other_than};
use crate::input::{RawButton, MouseButton, button_shown};
use crate::monitor::{MonitorView, first_monitor_at, lemma_first_monitor_at, rect_contains};
use crate::state::{
    StateView, EventView, EmissionView, valid_state, after_event, ignored,
    emission_of, on_current_monitor, on_monitor,
};

verus! {

/// Every event keeps the state valid: the held keys stay tracked key names,
/// none held twice.
pub proof fn lemma_event_keeps_state_valid(s: StateView, e: EventView)
    requires
        valid_state(s),
    ensures
        valid_state(after_event(s, e).0),
{
    match e {
        EventView::KeyPress(name) => {
            if named_key(name) && !s.pressed_keys.contains(name) {
                let p = s.pressed_keys.push(name);
                assert(after_event(s, e).0.pressed_keys == p);
                assert forall|i: int| 0 <= i < p.len() implies named_key(#[trigger] p[i]) by {
                    if i < s.pressed_keys.len() {
                        assert(p[i] == s.pressed_keys[i]);
                    }
                }
                assert forall|i: int, j: int|
                    0 <= i < p.len() && 0 <= j < p.len() && i != j implies p[i] != p[j] by {
                    if i == s.pressed_keys.len() {
                        assert(s.pressed_keys.contains(p[j]));
                    } else if j == s.pressed_keys.len() {
                        assert(s.pressed_keys.contains(p[i]));
                    }
                }
            }
        },
        EventView::KeyRelease(name) => {
            if named_key(name) {
                lemma_keeping_some_keys_keeps_state_valid(s, other_than(name));
            }
        },
        _ => {},
    }
}

/// Keeping only some of the held keys (as a release or a clearing does),
/// in their order, keeps the state valid.
pub proof fn lemma_keeping_some_keys_keeps_state_valid(s: StateView, pred: spec_fn(Seq<char>) -> bool)
    requires
        valid_state(s),
    ensures
        valid_state(StateView { pressed_keys: s.pressed_keys.filter(pred), ..s }),
{
    let f = s.pressed_keys.filter(pred);
    lemma_filter_distinct(s.pressed_keys, pred);
    assert forall|i: int| 0 <= i < f.len() implies named_key(#[trigger] f[i]) by {
        assert(f.contains(f[i]));
    }
}

/// A key that is not held goes down and up again: the held keys are as
/// they were before.
pub proof fn lemma_press_then_release_restores_keys(s: StateView, name: Seq<char>)
    requires
        valid_state(s),
        !s.pressed_keys.contains(name),
    ensures
        after_event(after_event(s, EventView::KeyPress(name)).0, EventView::KeyRelease(name)).0.pressed_keys
            == s.pressed_keys,
{
    let pred = other_than(name);
    if named_key(name) {
        s.pressed_keys.lemma_filter_push(name, pred);
        assert forall|i: int| 0 <= i < s.pressed_keys.len() implies pred(#[trigger] s.pressed_keys[i]) by {
            assert(s.pressed_keys.contains(s.pressed_keys[i]));
        }
        lemma_filter_all_kept(s.pressed_keys, pred);
        assert(after_event(s, EventView::KeyPress(name)).0.pressed_keys == s.pressed_keys.push(name));
    }
}

/// Keeping the elements of a sequence that all pass a test keeps all of it.
proof fn lemma_filter_all_kept(s: Seq<Seq<char>>, pred: spec_fn(Seq<char>) -> bool)
    requires
        forall|i: int| 0 <= i < s.len() ==> pred(#[trigger] s[i]),
    ensures
        s.filter(pred) == s,
    decreases s.len(),
{
    reveal(Seq::filter);
    if s.len() > 0 {
        lemma_filter_all_kept(s.drop_last(), pred);
        assert(s.drop_last().push(s.last()) =~= s);
    }
}

/// A key that is already held goes down again (a repeat): nothing changes
/// and nothing goes on to the overlay.
pub proof fn lemma_repeat_press_ignored(s: StateView, name: Seq<char>)
    requires
        s.pressed_keys.contains(name),
    ensures
        after_event(s, EventView::KeyPress(name)) == (s, ignored()),
{
}

/// A key whose name is not tracked changes nothing and goes nowhere,
/// whether it goes down or up.
pub proof fn lemma_untracked_key_ignored(s: StateView, name: Seq<char>)
    requires
        !named_key(name),
    ensures
        after_event(s, EventView::KeyPress(name)) == (s, ignored()),
        after_event(s, EventView::KeyRelease(name)) == (s, ignored()),
{
}

/// An event goes on to the overlay only while the listener is on after it;
/// while the listener is off, only the event that completes the toggle
/// shortcut can switch it on, and nothing else goes on.
pub proof fn lemma_forward_only_while_listening(s: StateView, e: EventView)
    ensures
        after_event(s, e).1.forward ==> after_event(s, e).0.listening,
        !s.listening && !after_event(s, e).1.toggled ==> !after_event(s, e).1.forward
            && !after_event(s, e).0.listening,
{
}

/// The listener switches exactly when a key goes down that makes the held
/// keys equal to the toggle shortcut. When it switches off, a release is
/// announced for every key then held, and the event itself goes nowhere;
/// otherwise no release is announced.
pub proof fn lemma_toggle_shortcut(s: StateView, e: EventView)
    ensures
        ({
            let (t, r) = after_event(s, e);
            &&& r.toggled <==> (e matches EventView::KeyPress(name) && named_key(name)
                && !s.pressed_keys.contains(name) && s.toggle_shortcut == s.pressed_keys.push(name))
            &&& t.listening == (if r.toggled { !s.listening } else { s.listening })
            &&& r.toggled && !t.listening ==> r.released_keys == t.pressed_keys && !r.forward
            &&& !(r.toggled && !t.listening) ==> r.released_keys.len() == 0
        }),
{
}

/// An event changes nothing but the held keys and the listener's switch.
pub proof fn lemma_event_keeps_settings(s: StateView, e: EventView)
    ensures
        ({
            let t = after_event(s, e).0;
            &&& t.toggle_shortcut == s.toggle_shortcut
            &&& t.follow_cursor == s.follow_cursor
            &&& t.monitor_name == s.monitor_name
            &&& t.monitor_position == s.monitor_position
            &&& t.monitor_size == s.monitor_size
        }),
{
}

/// A monitor check is asked for only on a pointer move that goes on to the
/// overlay while the overlay follows the pointer.
pub proof fn lemma_reposition_only_on_forwarded_moves(s: StateView, e: EventView)
    ensures
        after_event(s, e).1.reposition <==> (e is MouseMove && s.listening && s.follow_cursor),
{
}

/// During secure input nothing is shown of any event.
pub proof fn lemma_secure_input_shows_nothing(e: EventView, origin: (i32, i32))
    ensures
        emission_of(e, origin, true) is None,
{
}

/// Once the overlay has moved to the first monitor that holds the pointer,
/// the pointer is on the overlay's monitor, so the next check at the same
/// point moves nothing.
pub proof fn lemma_followed_monitor_holds_pointer(
    s: StateView,
    monitors: Seq<MonitorView>,
    px: i32,
    py: i32,
)
    requires
        first_monitor_at(monitors, px, py) is Some,
    ensures
        ({
            let m = monitors[first_monitor_at(monitors, px, py)->0];
            on_current_monitor(on_monitor(s, m, m.name), px, py)
        }),
{
    lemma_first_monitor_at(monitors, px, py);
    let i = first_monitor_at(monitors, px, py)->0;
    let m = monitors[i];
    assert(m.width > 0) by {
        if m.width == 0 {
            assert((m.width as i32) == 0);
        }
    }
    assert(m.height > 0) by {
        if m.height == 0 {
            assert((m.height as i32) == 0);
        }
    }
}

/// Once the overlay has moved to the monitor of a given name, that monitor
/// is the current one, so asking for it again moves nothing.
pub proof fn lemma_named_monitor_is_current(s: StateView, m: MonitorView, name: Seq<char>)
    ensures
        on_monitor(s, m, Some(name)).monitor_name == Some(name),
{
}


/// The state after a sequence of events, taken in order.
pub open spec fn after_events(s: StateView, events: Seq<EventView>) -> StateView
    decreases events.len(),
{
    if events.len() == 0 {
        s
    } else {
        after_event(after_events(s, events.drop_last()), events.last()).0
    }
}

/// Event `i` of the sequence is a press of the key `name` that no later
/// event releases.
pub open spec fn unreleased_press(events: Seq<EventView>, name: Seq<char>, i: int) -> bool {
    &&& 0 <= i < events.len()
    &&& events[i] == EventView::KeyPress(name)
    &&& forall|j: int| i < j < events.len() ==> events[j] != EventView::KeyRelease(name)
}

/// The key went down in the sequence and no later event released it.
pub open spec fn held_after(events: Seq<EventView>, name: Seq<char>) -> bool {
    exists|i: int| unreleased_press(events, name, i)
}

/// Event `i` is the first press of `name` that no later event releases:
/// the press that made the key held (later ones are repeats).
pub open spec fn first_unreleased_press(events: Seq<EventView>, name: Seq<char>, i: int) -> bool {
    &&& unreleased_press(events, name, i)
    &&& forall|k: int| 0 <= k < i ==> !unreleased_press(events, name, k)
}

/// The index of the press that made a held key held.
pub open spec fn inserting_press(events: Seq<EventView>, name: Seq<char>) -> int {
    choose|i: int| first_unreleased_press(events, name, i)
}

/// A held key has a press that made it held, and `inserting_press` names it.
pub proof fn lemma_inserting_press(events: Seq<EventView>, name: Seq<char>)
    requires
        held_after(events, name),
    ensures
        first_unreleased_press(events, name, inserting_press(events, name)),
{
    let n = choose|i: int| unreleased_press(events, name, i);
    lemma_first_unreleased_exists(events, name, n);
}

proof fn lemma_first_unreleased_exists(events: Seq<EventView>, name: Seq<char>, n: int)
    requires
        unreleased_press(events, name, n),
    ensures
        exists|i: int| first_unreleased_press(events, name, i),
    decreases n,
{
    if exists|k: int| 0 <= k < n && unreleased_press(events, name, k) {
        let k = choose|k: int| 0 <= k < n && unreleased_press(events, name, k);
        lemma_first_unreleased_exists(events, name, k);
    } else {
        assert(first_unreleased_press(events, name, n));
    }
}

/// An event that neither presses nor releases `name` leaves the presses of
/// `name` that are unreleased, and so the press that made it held, as they
/// were.
proof fn lemma_other_event_keeps_presses(events: Seq<EventView>, name: Seq<char>)
    requires
        events.len() > 0,
        events.last() != EventView::KeyPress(name),
        events.last() != EventView::KeyRelease(name),
    ensures
        forall|i: int| unreleased_press(events, name, i) <==> unreleased_press(events.drop_last(), name, i),
        held_after(events, name) == held_after(events.drop_last(), name),
        held_after(events, name) ==> inserting_press(events, name) == inserting_press(events.drop_last(), name),
{
    let prev = events.drop_last();
    assert forall|i: int| unreleased_press(events, name, i) <==> unreleased_press(prev, name, i) by {
        if unreleased_press(events, name, i) {
            assert(i < prev.len());
            assert forall|j: int| i < j < prev.len() implies prev[j] != EventView::KeyRelease(name) by {
                assert(prev[j] == events[j]);
            }
        }
        if unreleased_press(prev, name, i) {
            assert(events[i] == prev[i]);
            assert forall|j: int| i < j < events.len() implies events[j] != EventView::KeyRelease(name) by {
                if j < prev.len() {
                    assert(prev[j] == events[j]);
                }
            }
        }
    }
    if held_after(events, name) {
        let w = choose|i: int| unreleased_press(events, name, i);
        assert(unreleased_press(prev, name, w));
        lemma_inserting_press(events, name);
        lemma_inserting_press(prev, name);
        let a = inserting_press(events, name);
        let b = inserting_press(prev, name);
        assert(first_unreleased_press(prev, name, a));
        assert(first_unreleased_press(events, name, b));
        if a < b {
            assert(!unreleased_press(prev, name, a));
        } else if b < a {
            assert(!unreleased_press(events, name, b));
        }
    } else {
        if held_after(prev, name) {
            let w = choose|i: int| unreleased_press(prev, name, i);
            assert(unreleased_press(events, name, w));
        }
    }
}

/// A press of `name` at the end of the sequence: the key is held, and the
/// press that made it held is the earlier one where the key was held
/// already, else this one.
proof fn lemma_final_press(events: Seq<EventView>, name: Seq<char>)
    requires
        events.len() > 0,
        events.last() == EventView::KeyPress(name),
    ensures
        held_after(events, name),
        inserting_press(events, name) == if held_after(events.drop_last(), name) {
            inserting_press(events.drop_last(), name)
        } else {
            events.len() - 1
        },
{
    let prev = events.drop_last();
    let last = events.len() - 1;
    assert(unreleased_press(events, name, last));
    assert forall|i: int| 0 <= i < last implies (unreleased_press(events, name, i) <==> unreleased_press(prev, name, i)) by {
        assert(events[i] == prev[i]);
        if unreleased_press(events, name, i) {
            assert forall|j: int| i < j < prev.len() implies prev[j] != EventView::KeyRelease(name) by {
                assert(prev[j] == events[j]);
            }
        }
        if unreleased_press(prev, name, i) {
            assert forall|j: int| i < j < events.len() implies events[j] != EventView::KeyRelease(name) by {
                if j < prev.len() {
                    assert(prev[j] == events[j]);
                }
            }
        }
    }
    lemma_inserting_press(events, name);
    let a = inserting_press(events, name);
    if held_after(prev, name) {
        lemma_inserting_press(prev, name);
        let b = inserting_press(prev, name);
        assert(unreleased_press(events, name, b));
        assert(first_unreleased_press(events, name, b));
        if a < b {
            assert(unreleased_press(prev, name, a));
        } else if b < a {
            assert(!unreleased_press(events, name, b));
        }
    } else {
        if a < last {
            assert(unreleased_press(prev, name, a));
        }
    }
}

/// A release of `name` at the end of the sequence: the key is not held.
proof fn lemma_final_release(events: Seq<EventView>, name: Seq<char>)
    requires
        events.len() > 0,
        events.last() == EventView::KeyRelease(name),
    ensures
        !held_after(events, name),
{
    if held_after(events, name) {
        let i = choose|i: int| unreleased_press(events, name, i);
        if i == events.len() - 1 {
            assert(events[i] == EventView::KeyRelease(name));
        } else {
            assert(events[events.len() - 1] != EventView::KeyRelease(name));
        }
    }
}

/// Keeping only some elements of a sequence without duplicates keeps their
/// order: two kept elements come in the original in the same order.
proof fn lemma_filter_keeps_order(s: Seq<Seq<char>>, pred: spec_fn(Seq<char>) -> bool, p: int, q: int)
    requires
        0 <= p < q < s.filter(pred).len(),
    ensures
        exists|a: int, b: int|
            0 <= a < b < s.len() && s[a] == s.filter(pred)[p] && s[b] == s.filter(pred)[q],
    decreases s.len(),
{
    reveal(Seq::filter);
    let rest = s.drop_last();
    let f = rest.filter(pred);
    if q < f.len() {
        lemma_filter_keeps_order(rest, pred, p, q);
        let (a, b) = choose|a: int, b: int| 0 <= a < b < rest.len() && rest[a] == f[p] && rest[b] == f[q];
        assert(s[a] == rest[a] && s[b] == rest[b]);
    } else {
        assert(f.contains(f[p]));
        rest.lemma_filter_contains_rev(pred, f[p]);
        let a = choose|a: int| 0 <= a < rest.len() && rest[a] == f[p];
        assert(s[a] == rest[a]);
        assert(s[s.len() - 1] == s.filter(pred)[q]);
    }
}

/// From no key held, after any sequence of events: the state is valid; a
/// tracked key is held exactly when it went down and no later event
/// released it; and the held keys come in the order of the presses that
/// made them held.
pub proof fn lemma_held_keys_follow_history(s: StateView, events: Seq<EventView>)
    requires
        s.pressed_keys.len() == 0,
    ensures
        ({
            let t = after_events(s, events);
            &&& valid_state(t)
            &&& forall|n: Seq<char>| named_key(n) ==> (t.pressed_keys.contains(n) <==> held_after(events, n))
            &&& forall|p: int, q: int|
                0 <= p < q < t.pressed_keys.len() ==> inserting_press(events, t.pressed_keys[p])
                    < inserting_press(events, t.pressed_keys[q])
        }),
    decreases events.len(),
{
    if events.len() == 0 {
        assert forall|n: Seq<char>| named_key(n) implies !held_after(events, n) by {}
        return;
    }
    let prev = events.drop_last();
    let e = events.last();
    lemma_held_keys_follow_history(s, prev);
    let t0 = after_events(s, prev);
    let t = after_events(s, events);
    assert(t == after_event(t0, e).0);
    lemma_event_keeps_state_valid(t0, e);
    let old_keys = t0.pressed_keys;
    let keys = t.pressed_keys;
    // every held key of the earlier state other than those the event
    // names keeps its inserting press
    assert forall|x: Seq<char>|
        e != EventView::KeyPress(x) && e != EventView::KeyRelease(x) implies
        (held_after(events, x) == held_after(prev, x)
        && (held_after(events, x) ==> inserting_press(events, x) == inserting_press(prev, x))) by {
        lemma_other_event_keeps_presses(events, x);
    }
    match e {
        EventView::KeyPress(m) => {
            lemma_final_press(events, m);
            if named_key(m) && !old_keys.contains(m) {
                assert(keys == old_keys.push(m));
                assert forall|n: Seq<char>| named_key(n) implies (keys.contains(n) <==> held_after(events, n)) by {
                    if n != m {
                        if old_keys.contains(n) {
                            let i = choose|i: int| 0 <= i < old_keys.len() && old_keys[i] == n;
                            assert(keys[i] == n);
                        }
                        if keys.contains(n) {
                            let i = choose|i: int| 0 <= i < keys.len() && keys[i] == n;
                            assert(i < old_keys.len());
                            assert(old_keys[i] == n);
                        }
                    } else {
                        assert(keys[keys.len() - 1] == m);
                    }
                }
                assert forall|p: int, q: int| 0 <= p < q < keys.len() implies
                    inserting_press(events, keys[p]) < inserting_press(events, keys[q]) by {
                    assert(keys[p] == old_keys[p]);
                    assert(old_keys.contains(old_keys[p]));
                    assert(named_key(old_keys[p]));
                    lemma_inserting_press(prev, old_keys[p]);
                    if q < old_keys.len() {
                        assert(keys[q] == old_keys[q]);
                        assert(old_keys.contains(old_keys[q]));
                        assert(named_key(old_keys[q]));
                    } else {
                        assert(keys[q] == m);
                    }
                }
            } else {
                assert(keys == old_keys);
                assert forall|n: Seq<char>| named_key(n) implies (keys.contains(n) <==> held_after(events, n)) by {
                    if n == m {
                        assert(old_keys.contains(m));
                    }
                }
                assert forall|p: int, q: int| 0 <= p < q < keys.len() implies
                    inserting_press(events, keys[p]) < inserting_press(events, keys[q]) by {
                    assert(old_keys.contains(old_keys[p]));
                    assert(old_keys.contains(old_keys[q]));
                    assert(named_key(old_keys[p]) && named_key(old_keys[q]));
                }
            }
        },
        EventView::KeyRelease(m) => {
            lemma_final_release(events, m);
            if named_key(m) {
                let pred = other_than(m);
                assert(keys == old_keys.filter(pred));
                assert forall|n: Seq<char>| named_key(n) implies (keys.contains(n) <==> held_after(events, n)) by {
                    if keys.contains(n) {
                        old_keys.lemma_filter_contains_rev(pred, n);
                        let i = choose|i: int| 0 <= i < keys.len() && keys[i] == n;
                        old_keys.lemma_filter_pred(pred, i);
                    }
                    if n != m && old_keys.contains(n) {
                        let i = choose|i: int| 0 <= i < old_keys.len() && old_keys[i] == n;
                        old_keys.lemma_filter_contains(pred, i);
                    }
                }
                assert forall|p: int, q: int| 0 <= p < q < keys.len() implies
                    inserting_press(events, keys[p]) < inserting_press(events, keys[q]) by {
                    lemma_filter_keeps_order(old_keys, pred, p, q);
                    let (a, b) = choose|a: int, b: int|
                        0 <= a < b < old_keys.len() && old_keys[a] == keys[p] && old_keys[b] == keys[q];
                    old_keys.lemma_filter_pred(pred, p);
                    old_keys.lemma_filter_pred(pred, q);
                    assert(old_keys.contains(old_keys[a]));
                    assert(old_keys.contains(old_keys[b]));
                    assert(named_key(old_keys[a]) && named_key(old_keys[b]));
                }
            } else {
                assert(keys == old_keys);
                assert forall|p: int, q: int| 0 <= p < q < keys.len() implies
                    inserting_press(events, keys[p]) < inserting_press(events, keys[q]) by {
                    assert(named_key(old_keys[p]) && named_key(old_keys[q]));
                }
            }
        },
        _ => {
            assert(keys == old_keys);
            assert forall|p: int, q: int| 0 <= p < q < keys.len() implies
                inserting_press(events, keys[p]) < inserting_press(events, keys[q]) by {
                assert(old_keys.contains(old_keys[p]));
                assert(old_keys.contains(old_keys[q]));
            }
        },
    }
}


/// A button, a wheel or a pointer-move event changes nothing, and goes on
/// to the overlay exactly when the listener is on.
pub proof fn lemma_non_key_events_forwarded_while_listening(s: StateView, e: EventView)
    requires
        !(e is KeyPress),
        !(e is KeyRelease),
    ensures
        after_event(s, e).0 == s,
        after_event(s, e).1.forward == s.listening,
        !after_event(s, e).1.toggled,
        after_event(s, e).1.released_keys.len() == 0,
{
}

/// The three usual buttons are shown as themselves, any other as `Other`.
pub proof fn lemma_buttons_shown(code: u8)
    ensures
        button_shown(RawButton::Left) == MouseButton::Left,
        button_shown(RawButton::Right) == MouseButton::Right,
        button_shown(RawButton::Middle) == MouseButton::Middle,
        button_shown(RawButton::Unknown(code)) == MouseButton::Other,
{
}

/// Outside secure input, the overlay is shown each event as it is: a key by
/// its name, down or up; the usual buttons as themselves and others as
/// `Other`, down or up; the wheel by its two deltas; a pointer move with
/// the given monitor origin.
pub proof fn lemma_emissions_show_the_event(name: Seq<char>, code: u8, dx: i64, dy: i64, origin: (i32, i32))
    ensures
        emission_of(EventView::KeyPress(name), origin, false)
            == Some(EmissionView::Key { pressed: true, name }),
        emission_of(EventView::KeyRelease(name), origin, false)
            == Some(EmissionView::Key { pressed: false, name }),
        emission_of(EventView::ButtonPress(RawButton::Left), origin, false)
            == Some(EmissionView::MouseButton { pressed: true, button: MouseButton::Left }),
        emission_of(EventView::ButtonPress(RawButton::Right), origin, false)
            == Some(EmissionView::MouseButton { pressed: true, button: MouseButton::Right }),
        emission_of(EventView::ButtonPress(RawButton::Middle), origin, false)
            == Some(EmissionView::MouseButton { pressed: true, button: MouseButton::Middle }),
        emission_of(EventView::ButtonPress(RawButton::Unknown(code)), origin, false)
            == Some(EmissionView::MouseButton { pressed: true, button: MouseButton::Other }),
        emission_of(EventView::ButtonRelease(RawButton::Left), origin, false)
            == Some(EmissionView::MouseButton { pressed: false, button: MouseButton::Left }),
        emission_of(EventView::ButtonRelease(RawButton::Right), origin, false)
            == Some(EmissionView::MouseButton { pressed: false, button: MouseButton::Right }),
        emission_of(EventView::ButtonRelease(RawButton::Middle), origin, false)
            == Some(EmissionView::MouseButton { pressed: false, button: MouseButton::Middle }),
        emission_of(EventView::ButtonRelease(RawButton::Unknown(code)), origin, false)
            == Some(EmissionView::MouseButton { pressed: false, button: MouseButton::Other }),
        emission_of(EventView::Wheel { delta_x: dx, delta_y: dy }, origin, false)
            == Some(EmissionView::MouseWheel { delta_x: dx, delta_y: dy }),
        emission_of(EventView::MouseMove, origin, false)
            == Some(EmissionView::MouseMove { origin_x: origin.0, origin_y: origin.1 }),
{
}

/// A rectangle holds a point exactly when the point lies at or right of its
/// left edge and left of its right edge, and at or below its top edge and
/// above its bottom edge.
pub proof fn lemma_rect_bounds(x: i32, y: i32, width: u32, height: u32, px: i32, py: i32)
    ensures
        rect_contains(x, y, width, height, px, py) <==> (
            x <= px && px < x + (width as i32) && y <= py && py < y + (height as i32)),
{
}

/// The monitor found under the pointer spans the pointer both across and
/// down, and no monitor before it in the list does; where none is found,
/// no monitor spans it.
pub proof fn lemma_found_monitor_spans_pointer(monitors: Seq<MonitorView>, px: i32, py: i32)
    ensures
        match first_monitor_at(monitors, px, py) {
            Some(i) => {
                &&& 0 <= i < monitors.len()
                &&& monitors[i].x <= px < monitors[i].x + (monitors[i].width as i32)
                &&& monitors[i].y <= py < monitors[i].y + (monitors[i].height as i32)
                &&& forall|j: int| 0 <= j < i ==> !(
                    (#[trigger] monitors[j]).x <= px < monitors[j].x + (monitors[j].width as i32)
                    && monitors[j].y <= py < monitors[j].y + (monitors[j].height as i32))
            },
            None => forall|j: int| 0 <= j < monitors.len() ==> !(
                (#[trigger] monitors[j]).x <= px < monitors[j].x + (monitors[j].width as i32)
                && monitors[j].y <= py < monitors[j].y + (monitors[j].height as i32)),
        },
{
    lemma_first_monitor_at(monitors, px, py);
}

/// The pointer is on the overlay's monitor exactly when that monitor has a
/// size and the pointer lies within both its horizontal and its vertical
/// extent.
pub proof fn lemma_current_monitor_bounds(s: StateView, px: i32, py: i32)
    ensures
        on_current_monitor(s, px, py) <==> (
            s.monitor_size.0 > 0 && s.monitor_size.1 > 0
            && s.monitor_position.0 <= px
            && px < s.monitor_position.0 + (s.monitor_size.0 as i32)
            && s.monitor_position.1 <= py
            && py < s.monitor_position.1 + (s.monitor_size.1 as i32)),
{
}


/// A tracked key that goes up is no longer held, every other held key stays
/// held, and the event goes on to the overlay exactly when the listener is
/// on; the listener does not switch.
pub proof fn lemma_key_release_forgets_key(s: StateView, name: Seq<char>, other: Seq<char>)
    requires
        named_key(name),
        other != name,
    ensures
        !after_event(s, EventView::KeyRelease(name)).0.pressed_keys.contains(name),
        after_event(s, EventView::KeyRelease(name)).0.pressed_keys.contains(other)
            == s.pressed_keys.contains(other),
        after_event(s, EventView::KeyRelease(name)).1.forward == s.listening,
        after_event(s, EventView::KeyRelease(name)).0.listening == s.listening,
{
    let pred = other_than(name);
    let f = s.pressed_keys.filter(pred);
    if f.contains(name) {
        let i = choose|i: int| 0 <= i < f.len() && f[i] == name;
        s.pressed_keys.lemma_filter_pred(pred, i);
    }
    if f.contains(other) {
        s.pressed_keys.lemma_filter_contains_rev(pred, other);
    }
    if s.pressed_keys.contains(other) {
        let i = choose|i: int| 0 <= i < s.pressed_keys.len() && s.pressed_keys[i] == other;
        s.pressed_keys.lemma_filter_contains(pred, i);
    }
}

/// A tracked key that is not held goes down: it is appended to the held
/// keys, and the event goes on to the overlay exactly when the listener is
/// on afterwards.
pub proof fn lemma_new_key_press_appends(s: StateView, name: Seq<char>)
    requires
        named_key(name),
        !s.pressed_keys.contains(name),
    ensures
        after_event(s, EventView::KeyPress(name)).0.pressed_keys == s.pressed_keys.push(name),
        after_event(s, EventView::KeyPress(name)).1.forward
            == after_event(s, EventView::KeyPress(name)).0.listening,
{
}

} // verus!
