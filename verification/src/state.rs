use vstd::prelude::*;

use crate::input::{RawButton, MouseButton, map_mouse_button, is_secure_input, button_shown};
use crate::keys::{
    names, named_key, is_named_key, holds_key, same_keys, copy_keys, without_key,
    no_keys, other_than, not_among, without_keys,
};
use crate::laws::{lemma_event_keeps_state_valid, lemma_keeping_some_keys_keeps_state_valid};
use crate::monitor::{
    MonitorGeometry, MonitorView, monitor_views, rect_contains, in_rect, first_monitor_at,
    first_monitor_named, find_monitor_at, find_monitor_named, name_view,
};

verus! {

/// An input event as the global input hook delivers it. Keys come by name;
/// a pointer move carries no coordinates here, since the overlay only needs
/// to know that one happened (the position is converted where it is shown).
#[derive(Clone, Debug, PartialEq, Eq)]
pub enum ListenerEvent {
    KeyPress(String),
    KeyRelease(String),
    ButtonPress(RawButton),
    ButtonRelease(RawButton),
    MouseMove,
    Wheel { delta_x: i64, delta_y: i64 },
}

/// An input event by plain values.
pub enum EventView {
    KeyPress(Seq<char>),
    KeyRelease(Seq<char>),
    ButtonPress(RawButton),
    ButtonRelease(RawButton),
    MouseMove,
    Wheel { delta_x: i64, delta_y: i64 },
}

impl View for ListenerEvent {
    type V = EventView;

    open spec fn view(&self) -> EventView {
        match self {
            ListenerEvent::KeyPress(n) => EventView::KeyPress(n@),
            ListenerEvent::KeyRelease(n) => EventView::KeyRelease(n@),
            ListenerEvent::ButtonPress(b) => EventView::ButtonPress(*b),
            ListenerEvent::ButtonRelease(b) => EventView::ButtonRelease(*b),
            ListenerEvent::MouseMove => EventView::MouseMove,
            ListenerEvent::Wheel { delta_x, delta_y } => EventView::Wheel {
                delta_x: *delta_x,
                delta_y: *delta_y,
            },
        }
    }
}

/// What the overlay is told of an event that it shows.
#[derive(Clone, Debug, PartialEq, Eq)]
pub enum Emission {
    /// A key went down (`pressed`) or up.
    Key { pressed: bool, name: String },
    /// A mouse button went down (`pressed`) or up.
    MouseButton { pressed: bool, button: MouseButton },
    /// The pointer moved; its position is shown relative to the top-left
    /// corner `(origin_x, origin_y)` of the monitor the overlay is on.
    MouseMove { origin_x: i32, origin_y: i32 },
    /// The wheel turned.
    MouseWheel { delta_x: i64, delta_y: i64 },
}

/// An emission by plain values.
pub enum EmissionView {
    Key { pressed: bool, name: Seq<char> },
    MouseButton { pressed: bool, button: MouseButton },
    MouseMove { origin_x: i32, origin_y: i32 },
    MouseWheel { delta_x: i64, delta_y: i64 },
}

impl View for Emission {
    type V = EmissionView;

    open spec fn view(&self) -> EmissionView {
        match self {
            Emission::Key { pressed, name } => EmissionView::Key { pressed: *pressed, name: name@ },
            Emission::MouseButton { pressed, button } => EmissionView::MouseButton {
                pressed: *pressed,
                button: *button,
            },
            Emission::MouseMove { origin_x, origin_y } => EmissionView::MouseMove {
                origin_x: *origin_x,
                origin_y: *origin_y,
            },
            Emission::MouseWheel { delta_x, delta_y } => EmissionView::MouseWheel {
                delta_x: *delta_x,
                delta_y: *delta_y,
            },
        }
    }
}

/// What the caller does after an event has been taken into the state.
#[derive(Debug)]
pub struct Reaction {
    /// The toggle shortcut was completed: the listener switched on or off.
    pub toggled: bool,
    /// Keys for which a release is announced to the overlay, in order: all
    /// keys held down when the shortcut switched the listener off.
    pub released_keys: Vec<String>,
    /// The event goes on to the overlay.
    pub forward: bool,
    /// The pointer moved while the overlay follows it: the caller checks
    /// whether it left the current monitor before forwarding the event.
    pub reposition: bool,
}

/// A reaction by plain values.
pub struct ReactionView {
    pub toggled: bool,
    pub released_keys: Seq<Seq<char>>,
    pub forward: bool,
    pub reposition: bool,
}

impl View for Reaction {
    type V = ReactionView;

    open spec fn view(&self) -> ReactionView {
        ReactionView {
            toggled: self.toggled,
            released_keys: names(self.released_keys@),
            forward: self.forward,
            reposition: self.reposition,
        }
    }
}

/// The state that the input listener and the settings share.
#[derive(Debug)]
pub struct AppState {
    pressed_keys: Vec<String>,
    toggle_shortcut: Vec<String>,
    listening: bool,
    follow_cursor: bool,
    monitor_name: Option<String>,
    monitor_position: (i32, i32),
    monitor_size: (u32, u32),
}

/// The shared state by plain values.
pub struct StateView {
    /// The keys held down, in the order they went down.
    pub pressed_keys: Seq<Seq<char>>,
    /// The key combination that switches the listener on and off.
    pub toggle_shortcut: Seq<Seq<char>>,
    /// Whether events go on to the overlay.
    pub listening: bool,
    /// Whether the overlay moves to the monitor the pointer is on.
    pub follow_cursor: bool,
    /// The monitor the overlay is on: its name, its top-left corner, its size.
    pub monitor_name: Option<Seq<char>>,
    pub monitor_position: (i32, i32),
    pub monitor_size: (u32, u32),
}

impl AppState {
    /// Every `AppState` is valid; see `valid_state`.
    #[verifier::type_invariant]
    spec fn well_formed(self) -> bool {
        valid_state(self@)
    }
}

impl View for AppState {
    type V = StateView;

    closed spec fn view(&self) -> StateView {
        StateView {
            pressed_keys: names(self.pressed_keys@),
            toggle_shortcut: names(self.toggle_shortcut@),
            listening: self.listening,
            follow_cursor: self.follow_cursor,
            monitor_name: name_view(self.monitor_name),
            monitor_position: self.monitor_position,
            monitor_size: self.monitor_size,
        }
    }
}

/// The state's invariant: every key held down is a tracked key name, and no
/// key is held twice.
pub open spec fn valid_state(s: StateView) -> bool {
    &&& s.pressed_keys.no_duplicates()
    &&& forall|i: int| 0 <= i < s.pressed_keys.len() ==> named_key(#[trigger] s.pressed_keys[i])
}

/// The reaction to an event that changes nothing and goes nowhere.
pub open spec fn ignored() -> ReactionView {
    ReactionView { toggled: false, released_keys: seq![], forward: false, reposition: false }
}

/// The state after a key went down, and the reaction. A key whose name is
/// not tracked, or which is already held (a repeat), is ignored. Otherwise
/// it joins the held keys; when the held keys are then exactly the toggle
/// shortcut, the listener switches, and if it switched off, a release is
/// announced for every held key.
pub open spec fn after_key_press(s: StateView, name: Seq<char>) -> (StateView, ReactionView) {
    if !named_key(name) || s.pressed_keys.contains(name) {
        (s, ignored())
    } else {
        let pressed = s.pressed_keys.push(name);
        let toggled = s.toggle_shortcut == pressed;
        let listening = if toggled { !s.listening } else { s.listening };
        (
            StateView { pressed_keys: pressed, listening, ..s },
            ReactionView {
                toggled,
                released_keys: if toggled && !listening { pressed } else { seq![] },
                forward: listening,
                reposition: false,
            },
        )
    }
}

/// The state after a key went up, and the reaction: a tracked key leaves
/// the held keys and the event goes on while listening; an untracked one is
/// ignored.
pub open spec fn after_key_release(s: StateView, name: Seq<char>) -> (StateView, ReactionView) {
    if !named_key(name) {
        (s, ignored())
    } else {
        (
            StateView { pressed_keys: s.pressed_keys.filter(other_than(name)), ..s },
            ReactionView {
                toggled: false,
                released_keys: seq![],
                forward: s.listening,
                reposition: false,
            },
        )
    }
}

/// The state after an event, and the reaction. Events other than keys
/// change nothing and go on while listening; a pointer move also asks for a
/// monitor check when the overlay follows the pointer.
pub open spec fn after_event(s: StateView, e: EventView) -> (StateView, ReactionView) {
    match e {
        EventView::KeyPress(name) => after_key_press(s, name),
        EventView::KeyRelease(name) => after_key_release(s, name),
        EventView::MouseMove => (
            s,
            ReactionView {
                toggled: false,
                released_keys: seq![],
                forward: s.listening,
                reposition: s.listening && s.follow_cursor,
            },
        ),
        _ => (
            s,
            ReactionView {
                toggled: false,
                released_keys: seq![],
                forward: s.listening,
                reposition: false,
            },
        ),
    }
}

/// What the overlay is shown of an event, while the overlay is on the
/// monitor whose top-left corner is `origin`; nothing during secure input.
pub open spec fn emission_of(e: EventView, origin: (i32, i32), secure: bool) -> Option<EmissionView> {
    if secure {
        None
    } else {
        Some(
            match e {
                EventView::KeyPress(name) => EmissionView::Key { pressed: true, name },
                EventView::KeyRelease(name) => EmissionView::Key { pressed: false, name },
                EventView::ButtonPress(b) => EmissionView::MouseButton {
                    pressed: true,
                    button: button_shown(b),
                },
                EventView::ButtonRelease(b) => EmissionView::MouseButton {
                    pressed: false,
                    button: button_shown(b),
                },
                EventView::MouseMove => EmissionView::MouseMove {
                    origin_x: origin.0,
                    origin_y: origin.1,
                },
                EventView::Wheel { delta_x, delta_y } => EmissionView::MouseWheel {
                    delta_x,
                    delta_y,
                },
            },
        )
    }
}

/// Whether the point lies on the monitor the overlay is on; a monitor of
/// zero width or height holds no point.
pub open spec fn on_current_monitor(s: StateView, px: i32, py: i32) -> bool {
    &&& s.monitor_size.0 > 0
    &&& s.monitor_size.1 > 0
    &&& rect_contains(
        s.monitor_position.0,
        s.monitor_position.1,
        s.monitor_size.0,
        s.monitor_size.1,
        px,
        py,
    )
}

/// The state once the overlay is on the given monitor, known by the given
/// name.
pub open spec fn on_monitor(s: StateView, m: MonitorView, name: Option<Seq<char>>) -> StateView {
    StateView {
        monitor_name: name,
        monitor_position: (m.x, m.y),
        monitor_size: (m.width, m.height),
        ..s
    }
}

impl AppState {
    /// A state with no key held, no toggle shortcut, the listener on, the
    /// overlay not following the pointer, and no monitor known.
    pub fn new() -> (state: AppState)
        ensures
            state@.pressed_keys == Seq::<Seq<char>>::empty(),
            state@.toggle_shortcut == Seq::<Seq<char>>::empty(),
            state@.listening,
            !state@.follow_cursor,
            state@.monitor_name is None,
            state@.monitor_position == (0i32, 0i32),
            state@.monitor_size == (0u32, 0u32),
            valid_state(state@),
    {
        let state = AppState {
            pressed_keys: Vec::new(),
            toggle_shortcut: Vec::new(),
            listening: true,
            follow_cursor: false,
            monitor_name: None,
            monitor_position: (0, 0),
            monitor_size: (0, 0),
        };
        assert(state@.pressed_keys =~= Seq::<Seq<char>>::empty());
        assert(state@.toggle_shortcut =~= Seq::<Seq<char>>::empty());
        state
    }

    /// Whether events go on to the overlay.
    pub fn listening(&self) -> (on: bool)
        ensures
            on == self@.listening,
    {
        self.listening
    }

    /// Whether the overlay follows the pointer.
    pub fn follow_cursor(&self) -> (on: bool)
        ensures
            on == self@.follow_cursor,
    {
        self.follow_cursor
    }

    /// The top-left corner of the monitor the overlay is on.
    pub fn monitor_position(&self) -> (position: (i32, i32))
        ensures
            position == self@.monitor_position,
    {
        self.monitor_position
    }

    /// The size of the monitor the overlay is on.
    pub fn monitor_size(&self) -> (size: (u32, u32))
        ensures
            size == self@.monitor_size,
    {
        self.monitor_size
    }

    /// The keys held down, in the order they went down; they are tracked
    /// key names, none held twice (`valid_state`).
    pub fn pressed_keys(&self) -> (keys: Vec<String>)
        ensures
            names(keys@) == self@.pressed_keys,
            valid_state(self@),
    {
        proof {
            use_type_invariant(self);
        }
        copy_keys(&self.pressed_keys)
    }

    /// Sets the key combination that switches the listener on and off.
    pub fn set_toggle_shortcut(&mut self, shortcut: Vec<String>)
        ensures
            final(self)@ == (StateView { toggle_shortcut: names(shortcut@), ..old(self)@ }),
    {
        proof {
            use_type_invariant(&*self);
        }
        self.toggle_shortcut = shortcut;
    }

    /// Sets whether the overlay follows the pointer to its monitor.
    pub fn set_follow_cursor(&mut self, enabled: bool)
        ensures
            final(self)@ == (StateView { follow_cursor: enabled, ..old(self)@ }),
    {
        proof {
            use_type_invariant(&*self);
        }
        self.follow_cursor = enabled;
    }

    /// Switches the listener on or off, and returns whether it is now on.
    pub fn toggle_listener(&mut self) -> (listening: bool)
        ensures
            final(self)@ == (StateView { listening: !old(self)@.listening, ..old(self)@ }),
            listening == final(self)@.listening,
    {
        proof {
            use_type_invariant(&*self);
        }
        self.listening = !self.listening;
        self.listening
    }
}


impl AppState {
    /// Takes a key going down into the state; see `after_key_press`.
    fn press_key(&mut self, name: &String) -> (reaction: Reaction)
        ensures
            (final(self)@, reaction@) == after_key_press(old(self)@, name@),
            valid_state(final(self)@),
    {
        proof {
            use_type_invariant(&*self);
        }
        if !is_named_key(name) || holds_key(&self.pressed_keys, name) {
            return Reaction {
                toggled: false,
                released_keys: no_keys(),
                forward: false,
                reposition: false,
            };
        }
        let ghost before = self@;
        proof {
            lemma_event_keeps_state_valid(before, EventView::KeyPress(name@));
        }
        let mut keys: Vec<String> = Vec::new();
        std::mem::swap(&mut keys, &mut self.pressed_keys);
        keys.push(name.clone());
        assert(names(keys@) =~= before.pressed_keys.push(name@));
        self.pressed_keys = keys;
        let toggled = same_keys(&self.toggle_shortcut, &self.pressed_keys);
        let mut released_keys = no_keys();
        if toggled {
            self.listening = !self.listening;
            if !self.listening {
                released_keys = copy_keys(&self.pressed_keys);
            }
        }
        Reaction { toggled, released_keys, forward: self.listening, reposition: false }
    }

    /// Takes a key going up into the state; see `after_key_release`.
    fn release_key(&mut self, name: &String) -> (reaction: Reaction)
        ensures
            (final(self)@, reaction@) == after_key_release(old(self)@, name@),
            valid_state(final(self)@),
    {
        proof {
            use_type_invariant(&*self);
        }
        if !is_named_key(name) {
            return Reaction {
                toggled: false,
                released_keys: no_keys(),
                forward: false,
                reposition: false,
            };
        }
        proof {
            lemma_keeping_some_keys_keeps_state_valid(self@, other_than(name@));
        }
        self.pressed_keys = without_key(&self.pressed_keys, name);
        let released_keys = no_keys();
        Reaction { toggled: false, released_keys, forward: self.listening, reposition: false }
    }

    /// Forgets that the given keys are held, as when their release was never
    /// reported; the other held keys stay, in their order.
    pub fn clear_pressed_keys(&mut self, keys: &Vec<String>)
        ensures
            final(self)@ == (StateView {
                pressed_keys: old(self)@.pressed_keys.filter(not_among(names(keys@))),
                ..old(self)@
            }),
            valid_state(final(self)@),
    {
        proof {
            use_type_invariant(&*self);
            lemma_keeping_some_keys_keeps_state_valid(self@, not_among(names(keys@)));
        }
        self.pressed_keys = without_keys(&self.pressed_keys, keys);
    }

    /// Takes an input event into the state and says what follows from it;
    /// see `after_event`. The state stays valid (`valid_state`).
    pub fn on_event(&mut self, event: &ListenerEvent) -> (reaction: Reaction)
        ensures
            (final(self)@, reaction@) == after_event(old(self)@, event@),
            valid_state(final(self)@),
    {
        proof {
            use_type_invariant(&*self);
        }
        match event {
            ListenerEvent::KeyPress(name) => self.press_key(name),
            ListenerEvent::KeyRelease(name) => self.release_key(name),
            ListenerEvent::MouseMove => {
                let released_keys = no_keys();
                Reaction {
                    toggled: false,
                    released_keys,
                    forward: self.listening,
                    reposition: self.listening && self.follow_cursor,
                }
            },
            _ => {
                let released_keys = no_keys();
                Reaction { toggled: false, released_keys, forward: self.listening, reposition: false }
            },
        }
    }

    /// What the overlay is shown of an event, given the flag by which the
    /// system reports secure input (see `is_secure_input`); see
    /// `emission_of`. A pointer move is placed relative to the monitor the
    /// overlay is on.
    pub fn emission_for(&self, event: &ListenerEvent, secure_event_input: u8) -> (emission: Option<Emission>)
        ensures
            match emission {
                Some(e) => emission_of(event@, self@.monitor_position, secure_event_input != 0) == Some(e@),
                None => emission_of(event@, self@.monitor_position, secure_event_input != 0) is None,
            },
    {
        if is_secure_input(secure_event_input) {
            return None;
        }
        let e = match event {
            ListenerEvent::KeyPress(name) => Emission::Key { pressed: true, name: name.clone() },
            ListenerEvent::KeyRelease(name) => Emission::Key { pressed: false, name: name.clone() },
            ListenerEvent::ButtonPress(b) => Emission::MouseButton { pressed: true, button: map_mouse_button(*b) },
            ListenerEvent::ButtonRelease(b) => Emission::MouseButton { pressed: false, button: map_mouse_button(*b) },
            ListenerEvent::MouseMove => Emission::MouseMove {
                origin_x: self.monitor_position.0,
                origin_y: self.monitor_position.1,
            },
            ListenerEvent::Wheel { delta_x, delta_y } => Emission::MouseWheel { delta_x: *delta_x, delta_y: *delta_y },
        };
        Some(e)
    }
}


/// A copy of an optional monitor name.
fn copy_name(name: &Option<String>) -> (copy: Option<String>)
    ensures
        name_view(copy) == name_view(*name),
{
    match name {
        Some(n) => Some(n.clone()),
        None => None,
    }
}

impl AppState {
    /// Puts the overlay on the given monitor.
    pub fn set_monitor(&mut self, monitor: &MonitorGeometry)
        ensures
            final(self)@ == on_monitor(old(self)@, monitor@, monitor@.name),
    {
        proof {
            use_type_invariant(&*self);
        }
        self.monitor_name = copy_name(&monitor.name);
        self.monitor_position = (monitor.x, monitor.y);
        self.monitor_size = (monitor.width, monitor.height);
    }

    /// Whether the point `(px, py)`, in physical pixels, lies on the monitor
    /// the overlay is on; see `on_current_monitor`.
    pub fn cursor_on_monitor(&self, px: i32, py: i32) -> (inside: bool)
        ensures
            inside == on_current_monitor(self@, px, py),
    {
        let (x, y) = self.monitor_position;
        let (w, h) = self.monitor_size;
        w > 0 && h > 0 && in_rect(x, y, w, h, px, py)
    }

    /// Moves the overlay to the first monitor of `monitors` that holds the
    /// point `(px, py)`, and returns that monitor's index. Where none holds
    /// it, nothing changes.
    pub fn move_to_monitor_at(&mut self, monitors: &Vec<MonitorGeometry>, px: i32, py: i32) -> (moved: Option<usize>)
        ensures
            match first_monitor_at(monitor_views(monitors@), px, py) {
                Some(i) => {
                    let m = monitor_views(monitors@)[i];
                    &&& moved == Some(i as usize)
                    &&& final(self)@ == on_monitor(old(self)@, m, m.name)
                },
                None => moved is None && final(self)@ == old(self)@,
            },
    {
        proof {
            use_type_invariant(&*self);
        }
        match find_monitor_at(monitors, px, py) {
            Some(i) => {
                let m = &monitors[i];
                assert(monitor_views(monitors@)[i as int] == m@);
                self.monitor_name = copy_name(&m.name);
                self.monitor_position = (m.x, m.y);
                self.monitor_size = (m.width, m.height);
                Some(i)
            },
            None => None,
        }
    }

    /// Whether the overlay is on the monitor of the given name.
    pub fn monitor_is_current(&self, name: &String) -> (current: bool)
        ensures
            current == (self@.monitor_name == Some(name@)),
    {
        match &self.monitor_name {
            Some(n) => *n == *name,
            None => false,
        }
    }

    /// Moves the overlay to the first monitor of `monitors` that bears the
    /// given name, and returns that monitor's index. Where none bears it,
    /// nothing changes.
    pub fn move_to_named_monitor(&mut self, monitors: &Vec<MonitorGeometry>, name: &String) -> (moved: Option<usize>)
        ensures
            match first_monitor_named(monitor_views(monitors@), name@) {
                Some(i) => {
                    &&& moved == Some(i as usize)
                    &&& final(self)@ == on_monitor(old(self)@, monitor_views(monitors@)[i], Some(name@))
                },
                None => moved is None && final(self)@ == old(self)@,
            },
    {
        proof {
            use_type_invariant(&*self);
        }
        match find_monitor_named(monitors, name) {
            Some(i) => {
                let m = &monitors[i];
                assert(monitor_views(monitors@)[i as int] == m@);
                self.monitor_name = Some(name.clone());
                self.monitor_position = (m.x, m.y);
                self.monitor_size = (m.width, m.height);
                Some(i)
            },
            None => None,
        }
    }
}

} // verus!
