use vstd::prelude::*;

verus! {

/// A monitor as the windowing system describes it, in physical pixels: its
/// name, where its top-left corner lies and how large it is.
#[derive(Clone, Debug, PartialEq, Eq)]
pub struct MonitorGeometry {
    pub name: Option<String>,
    pub x: i32,
    pub y: i32,
    pub width: u32,
    pub height: u32,
}

/// A monitor by plain values.
pub struct MonitorView {
    pub name: Option<Seq<char>>,
    pub x: i32,
    pub y: i32,
    pub width: u32,
    pub height: u32,
}

pub open spec fn name_view(name: Option<String>) -> Option<Seq<char>> {
    match name {
        Some(n) => Some(n@),
        None => None,
    }
}

impl View for MonitorGeometry {
    type V = MonitorView;

    open spec fn view(&self) -> MonitorView {
        MonitorView {
            name: name_view(self.name),
            x: self.x,
            y: self.y,
            width: self.width,
            height: self.height,
        }
    }
}

/// The monitors of a list, by plain values.
pub open spec fn monitor_views(monitors: Seq<MonitorGeometry>) -> Seq<MonitorView> {
    monitors.map_values(|m: MonitorGeometry| m@)
}

/// Whether the point `(px, py)` lies in the rectangle whose top-left corner
/// is `(x, y)`: the left and top edges belong to it, the right and bottom
/// edges do not. Each extent is read as a signed 32-bit number, as the
/// window system's coordinates are.
pub open spec fn rect_contains(x: i32, y: i32, width: u32, height: u32, px: i32, py: i32) -> bool {
    &&& px >= x
    &&& px < x + (width as i32)
    &&& py >= y
    &&& py < y + (height as i32)
}

/// Whether a monitor holds the point.
pub open spec fn monitor_contains(m: MonitorView, px: i32, py: i32) -> bool {
    rect_contains(m.x, m.y, m.width, m.height, px, py)
}

/// Computes `rect_contains`.
pub fn in_rect(x: i32, y: i32, width: u32, height: u32, px: i32, py: i32) -> (inside: bool)
    ensures
        inside == rect_contains(x, y, width, height, px, py),
{
    let w: i32 = width as i32;
    let h: i32 = height as i32;
    let right: i64 = x as i64 + w as i64;
    let bottom: i64 = y as i64 + h as i64;
    px >= x && (px as i64) < right && py >= y && (py as i64) < bottom
}

/// The index of the first monitor of the list that holds the point.
pub open spec fn first_monitor_at(monitors: Seq<MonitorView>, px: i32, py: i32) -> Option<int> {
    if exists|i: int| 0 <= i < monitors.len() && monitor_contains(monitors[i], px, py) {
        Some(
            choose|i: int|
                0 <= i < monitors.len() && monitor_contains(monitors[i], px, py) && forall|j: int|
                    0 <= j < i ==> !monitor_contains(monitors[j], px, py),
        )
    } else {
        None
    }
}

/// The index of the first monitor of the list that bears the name.
pub open spec fn first_monitor_named(monitors: Seq<MonitorView>, name: Seq<char>) -> Option<int> {
    if exists|i: int| 0 <= i < monitors.len() && monitors[i].name == Some(name) {
        Some(
            choose|i: int|
                0 <= i < monitors.len() && monitors[i].name == Some(name) && forall|j: int|
                    0 <= j < i ==> monitors[j].name != Some(name),
        )
    } else {
        None
    }
}

/// Finds the first monitor of the list that holds the point.
pub fn find_monitor_at(monitors: &Vec<MonitorGeometry>, px: i32, py: i32) -> (found: Option<usize>)
    ensures
        match found {
            Some(i) => i < monitors.len() && first_monitor_at(monitor_views(monitors@), px, py) == Some(i as int),
            None => first_monitor_at(monitor_views(monitors@), px, py) is None,
        },
{
    let ghost views = monitor_views(monitors@);
    let mut i: usize = 0;
    while i < monitors.len()
        invariant
            i <= monitors.len(),
            views == monitor_views(monitors@),
            forall|j: int| 0 <= j < i ==> !monitor_contains(#[trigger] views[j], px, py),
        decreases monitors.len() - i,
    {
        let m = &monitors[i];
        if in_rect(m.x, m.y, m.width, m.height, px, py) {
            assert(monitor_contains(views[i as int], px, py));
            let ghost k = first_monitor_at(views, px, py)->0;
            assert(k == i as int) by {
                if k < i as int {
                    assert(!monitor_contains(views[k], px, py));
                } else if k > i as int {
                }
            }
            return Some(i);
        }
        assert(!monitor_contains(views[i as int], px, py));
        i = i + 1;
    }
    None
}

/// Whether a monitor's name is the given one.
pub fn has_name(monitor: &MonitorGeometry, name: &String) -> (same: bool)
    ensures
        same == (monitor@.name == Some(name@)),
{
    match &monitor.name {
        Some(n) => *n == *name,
        None => false,
    }
}

/// Finds the first monitor of the list that bears the name.
pub fn find_monitor_named(monitors: &Vec<MonitorGeometry>, name: &String) -> (found: Option<usize>)
    ensures
        match found {
            Some(i) => i < monitors.len() && first_monitor_named(monitor_views(monitors@), name@) == Some(i as int),
            None => first_monitor_named(monitor_views(monitors@), name@) is None,
        },
{
    let ghost views = monitor_views(monitors@);
    let mut i: usize = 0;
    while i < monitors.len()
        invariant
            i <= monitors.len(),
            views == monitor_views(monitors@),
            forall|j: int| 0 <= j < i ==> (#[trigger] views[j]).name != Some(name@),
        decreases monitors.len() - i,
    {
        if has_name(&monitors[i], name) {
            assert(views[i as int].name == Some(name@));
            let ghost k = first_monitor_named(views, name@)->0;
            assert(k == i as int) by {
                if k < i as int {
                    assert(views[k].name != Some(name@));
                }
            }
            return Some(i);
        }
        assert(views[i as int].name != Some(name@));
        i = i + 1;
    }
    None
}


/// Where some monitor of the list holds the point, a first one does, and
/// `first_monitor_at` names it.
pub proof fn lemma_first_monitor_at(monitors: Seq<MonitorView>, px: i32, py: i32)
    ensures
        match first_monitor_at(monitors, px, py) {
            Some(i) => {
                &&& 0 <= i < monitors.len()
                &&& monitor_contains(monitors[i], px, py)
                &&& forall|j: int| 0 <= j < i ==> !monitor_contains(#[trigger] monitors[j], px, py)
            },
            None => forall|j: int|
                0 <= j < monitors.len() ==> !monitor_contains(#[trigger] monitors[j], px, py),
        },
{
    if exists|i: int| 0 <= i < monitors.len() && monitor_contains(monitors[i], px, py) {
        let n = choose|i: int| 0 <= i < monitors.len() && monitor_contains(monitors[i], px, py);
        lemma_first_holder_exists(monitors, px, py, n);
    }
}

proof fn lemma_first_holder_exists(monitors: Seq<MonitorView>, px: i32, py: i32, n: int)
    requires
        0 <= n < monitors.len(),
        monitor_contains(monitors[n], px, py),
    ensures
        exists|i: int|
            0 <= i < monitors.len() && monitor_contains(monitors[i], px, py) && forall|j: int|
                0 <= j < i ==> !monitor_contains(monitors[j], px, py),
    decreases n,
{
    if exists|j: int| 0 <= j < n && monitor_contains(monitors[j], px, py) {
        let j = choose|j: int| 0 <= j < n && monitor_contains(monitors[j], px, py);
        lemma_first_holder_exists(monitors, px, py, j);
    } else {
        assert(forall|j: int| 0 <= j < n ==> !monitor_contains(monitors[j], px, py));
    }
}

/// Where some monitor of the list bears the name, a first one does, and
/// `first_monitor_named` names it.
pub proof fn lemma_first_monitor_named(monitors: Seq<MonitorView>, name: Seq<char>)
    ensures
        match first_monitor_named(monitors, name) {
            Some(i) => {
                &&& 0 <= i < monitors.len()
                &&& monitors[i].name == Some(name)
                &&& forall|j: int| 0 <= j < i ==> (#[trigger] monitors[j]).name != Some(name)
            },
            None => forall|j: int| 0 <= j < monitors.len() ==> (#[trigger] monitors[j]).name != Some(name),
        },
{
    if exists|i: int| 0 <= i < monitors.len() && monitors[i].name == Some(name) {
        let n = choose|i: int| 0 <= i < monitors.len() && monitors[i].name == Some(name);
        lemma_first_named_exists(monitors, name, n);
    }
}

proof fn lemma_first_named_exists(monitors: Seq<MonitorView>, name: Seq<char>, n: int)
    requires
        0 <= n < monitors.len(),
        monitors[n].name == Some(name),
    ensures
        exists|i: int|
            0 <= i < monitors.len() && monitors[i].name == Some(name) && forall|j: int|
                0 <= j < i ==> monitors[j].name != Some(name),
    decreases n,
{
    if exists|j: int| 0 <= j < n && monitors[j].name == Some(name) {
        let j = choose|j: int| 0 <= j < n && monitors[j].name == Some(name);
        lemma_first_named_exists(monitors, name, j);
    } else {
        assert(forall|j: int| 0 <= j < n ==> monitors[j].name != Some(name));
    }
}

} // verus!
