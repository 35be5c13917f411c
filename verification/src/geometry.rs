//! The window's place on screen, in its two modes, and what is kept of it on
//! disk.
use vstd::prelude::*;

verus! {

/// Where a window is and how large, in physical pixels.
#[derive(Clone, Copy, PartialEq, Eq, Structural, Debug)]
pub struct WindowGeometry {
    pub width: u32,
    pub height: u32,
    pub x: i32,
    pub y: i32,
    pub maximized: bool,
}

/// What is kept of the window on disk: its geometry in normal mode, its
/// geometry in widget mode, and which of the two it is in. A widget geometry
/// without width or height was never kept.
#[derive(Clone, Copy, PartialEq, Eq, Structural, Debug)]
pub struct WindowState {
    pub width: u32,
    pub height: u32,
    pub x: i32,
    pub y: i32,
    pub maximized: bool,
    pub widget_width: u32,
    pub widget_height: u32,
    pub widget_x: i32,
    pub widget_y: i32,
    pub widget_maximized: bool,
    pub widget_mode: bool,
    pub always_on_top: bool,
}

impl WindowState {
    /// The geometry in normal mode.
    pub open spec fn normal(self) -> WindowGeometry {
        WindowGeometry {
            width: self.width,
            height: self.height,
            x: self.x,
            y: self.y,
            maximized: self.maximized,
        }
    }

    /// The geometry in widget mode, if one was kept.
    pub open spec fn widget(self) -> Option<WindowGeometry> {
        if self.widget_width == 0 || self.widget_height == 0 {
            None
        } else {
            Some(
                WindowGeometry {
                    width: self.widget_width,
                    height: self.widget_height,
                    x: self.widget_x,
                    y: self.widget_y,
                    maximized: self.widget_maximized,
                },
            )
        }
    }

    /// The same with another geometry in normal mode.
    pub open spec fn with_normal(self, geometry: WindowGeometry) -> WindowState {
        WindowState {
            width: geometry.width,
            height: geometry.height,
            x: geometry.x,
            y: geometry.y,
            maximized: geometry.maximized,
            ..self
        }
    }

    /// The same with another geometry in widget mode.
    pub open spec fn with_widget(self, geometry: WindowGeometry) -> WindowState {
        WindowState {
            widget_width: geometry.width,
            widget_height: geometry.height,
            widget_x: geometry.x,
            widget_y: geometry.y,
            widget_maximized: geometry.maximized,
            ..self
        }
    }

    /// The geometry in normal mode.
    pub fn normal_geometry(&self) -> (geometry: WindowGeometry)
        ensures
            geometry == self.normal(),
    {
        WindowGeometry {
            width: self.width,
            height: self.height,
            x: self.x,
            y: self.y,
            maximized: self.maximized,
        }
    }

    /// Keeps another geometry for normal mode.
    pub fn set_normal_geometry(&mut self, geometry: WindowGeometry)
        ensures
            *final(self) == old(self).with_normal(geometry),
    {
        self.width = geometry.width;
        self.height = geometry.height;
        self.x = geometry.x;
        self.y = geometry.y;
        self.maximized = geometry.maximized;
    }

    /// The geometry in widget mode, `None` if none was kept yet.
    pub fn widget_geometry(&self) -> (geometry: Option<WindowGeometry>)
        ensures
            geometry == self.widget(),
    {
        if self.widget_width == 0 || self.widget_height == 0 {
            return None;
        }
        Some(
            WindowGeometry {
                width: self.widget_width,
                height: self.widget_height,
                x: self.widget_x,
                y: self.widget_y,
                maximized: self.widget_maximized,
            },
        )
    }

    /// Keeps another geometry for widget mode.
    pub fn set_widget_geometry(&mut self, geometry: WindowGeometry)
        ensures
            *final(self) == old(self).with_widget(geometry),
    {
        self.widget_width = geometry.width;
        self.widget_height = geometry.height;
        self.widget_x = geometry.x;
        self.widget_y = geometry.y;
        self.widget_maximized = geometry.maximized;
    }
}

/// What counts as kept before anything was: a window of 800 by 600 in the
/// corner, in normal mode.
pub open spec fn fallback_state() -> WindowState {
    WindowState {
        width: 800,
        height: 600,
        x: 0,
        y: 0,
        maximized: false,
        widget_width: 0,
        widget_height: 0,
        widget_x: 0,
        widget_y: 0,
        widget_maximized: false,
        widget_mode: false,
        always_on_top: false,
    }
}

/// What counts as kept before anything was.
pub fn fallback_window_state() -> (state: WindowState)
    ensures
        state == fallback_state(),
{
    WindowState {
        width: 800,
        height: 600,
        x: 0,
        y: 0,
        maximized: false,
        widget_width: 0,
        widget_height: 0,
        widget_x: 0,
        widget_y: 0,
        widget_maximized: false,
        widget_mode: false,
        always_on_top: false,
    }
}

/// The geometry of a window from what it tells of itself: the size of its
/// inside, its outer position, and whether it fills the screen. A window that
/// does not tell its size or its position has no geometry; one that does not
/// tell whether it is maximized is not.
pub fn current_window_geometry(
    inner_size: Option<(u32, u32)>,
    outer_position: Option<(i32, i32)>,
    maximized: Option<bool>,
) -> (geometry: Option<WindowGeometry>)
    ensures
        geometry == seen_geometry(inner_size, outer_position, maximized),
{
    match (inner_size, outer_position) {
        (Some(size), Some(position)) => Some(
            WindowGeometry {
                width: size.0,
                height: size.1,
                x: position.0,
                y: position.1,
                maximized: match maximized {
                    Some(yes) => yes,
                    None => false,
                },
            },
        ),
        _ => None,
    }
}

/// The geometry of a window from what it tells of itself.
pub open spec fn seen_geometry(
    inner_size: Option<(u32, u32)>,
    outer_position: Option<(i32, i32)>,
    maximized: Option<bool>,
) -> Option<WindowGeometry> {
    match (inner_size, outer_position) {
        (Some((width, height)), Some((x, y))) => Some(
            WindowGeometry { width, height, x, y, maximized: maximized == Some(true) },
        ),
        _ => None,
    }
}

/// A screen: its corner and its size, in physical pixels.
#[derive(Clone, Copy, PartialEq, Eq, Structural, Debug)]
pub struct Monitor {
    pub x: i32,
    pub y: i32,
    pub width: u32,
    pub height: u32,
}

/// A number of pixels as a signed number of the same bits.
pub open spec fn signed(n: u32) -> int {
    if n <= i32::MAX {
        n as int
    } else {
        n - 0x1_0000_0000
    }
}

/// Half of a number, rounded towards zero.
pub open spec fn half(n: int) -> int {
    if n >= 0 {
        n / 2
    } else {
        -((-n) / 2)
    }
}

/// Where something `inner` long begins so that it lies in the middle of what
/// begins at `start` and is `outer` long.
pub open spec fn centred(start: i32, outer: u32, inner: u32) -> int {
    start + half(signed(outer) - signed(inner))
}

/// Whether that can be computed in 32 bits.
pub open spec fn can_centre(start: i32, outer: u32, inner: u32) -> bool {
    &&& i32::MIN <= signed(outer) - signed(inner) <= i32::MAX
    &&& i32::MIN <= centred(start, outer, inner) <= i32::MAX
}

fn to_signed(n: u32) -> (m: i64)
    ensures
        m == signed(n),
{
    if n <= 0x7fff_ffff {
        n as i64
    } else {
        n as i64 - 0x1_0000_0000
    }
}

/// Half of a difference of pixels, as `half`.
fn halve(n: i64) -> (h: i64)
    requires
        -0x1_0000_0000 <= n <= 0x1_0000_0000,
    ensures
        h == half(n as int),
{
    if n >= 0 {
        (n as u64 / 2) as i64
    } else {
        -(((-n) as u64 / 2) as i64)
    }
}

/// Where something `inner` long begins in the middle of what begins at `start`
/// and is `outer` long.
fn centre(start: i32, outer: u32, inner: u32) -> (begin: i32)
    requires
        can_centre(start, outer, inner),
    ensures
        begin == centred(start, outer, inner),
{
    (start as i64 + halve(to_signed(outer) - to_signed(inner))) as i32
}

fn is_centrable(start: i32, outer: u32, inner: u32) -> (can: bool)
    ensures
        can == can_centre(start, outer, inner),
{
    let difference = to_signed(outer) - to_signed(inner);
    let begin = start as i64 + halve(difference);
    -0x8000_0000 <= difference && difference <= 0x7fff_ffff && -0x8000_0000 <= begin && begin <= 0x7fff_ffff
}

/// At least one pixel.
pub open spec fn visible(n: u32) -> u32 {
    if n < 1 {
        1
    } else {
        n
    }
}

/// A position that a new widget can take over: that of a window in normal mode
/// that does not fill the screen.
pub open spec fn has_position(normal: Option<WindowGeometry>) -> bool {
    normal is Some && !normal->0.maximized
}

/// The first geometry in widget mode, for a widget of this size.
pub open spec fn default_widget(
    width: u32,
    height: u32,
    normal: Option<WindowGeometry>,
    monitor: Option<Monitor>,
) -> WindowGeometry {
    let (x, y) = if has_position(normal) {
        (normal->0.x, normal->0.y)
    } else if monitor is Some {
        (
            centred(monitor->0.x, monitor->0.width, visible(width)) as i32,
            centred(monitor->0.y, monitor->0.height, visible(height)) as i32,
        )
    } else {
        (0, 0)
    };
    WindowGeometry { width: visible(width), height: visible(height), x, y, maximized: false }
}

/// Whether the first geometry in widget mode can be computed in 32 bits.
pub open spec fn can_default_widget(
    width: u32,
    height: u32,
    normal: Option<WindowGeometry>,
    monitor: Option<Monitor>,
) -> bool {
    !has_position(normal) && monitor is Some ==> {
        &&& can_centre(monitor->0.x, monitor->0.width, visible(width))
        &&& can_centre(monitor->0.y, monitor->0.height, visible(height))
    }
}

/// The first geometry in widget mode: a widget of this size (at least one pixel
/// each way) where the normal window is, or in the middle of the screen if the
/// normal window has no position of its own, or in the corner without a screen.
pub fn default_widget_geometry(
    width: u32,
    height: u32,
    normal: Option<WindowGeometry>,
    monitor: Option<Monitor>,
) -> (geometry: WindowGeometry)
    requires
        can_default_widget(width, height, normal, monitor),
    ensures
        geometry == default_widget(width, height, normal, monitor),
{
    let width = if width < 1 { 1 } else { width };
    let height = if height < 1 { 1 } else { height };
    let (x, y) = match normal {
        Some(normal) if !normal.maximized => (normal.x, normal.y),
        _ => match monitor {
            Some(monitor) => (
                centre(monitor.x, monitor.width, width),
                centre(monitor.y, monitor.height, height),
            ),
            None => (0, 0),
        },
    };
    WindowGeometry { width, height, x, y, maximized: false }
}

/// Tells whether `default_widget_geometry` can be computed in 32 bits.
pub fn default_widget_geometry_fits(
    width: u32,
    height: u32,
    normal: Option<WindowGeometry>,
    monitor: Option<Monitor>,
) -> (fits: bool)
    ensures
        fits == can_default_widget(width, height, normal, monitor),
{
    let width = if width < 1 { 1 } else { width };
    let height = if height < 1 { 1 } else { height };
    match normal {
        Some(normal) if !normal.maximized => true,
        _ => match monitor {
            Some(monitor) => is_centrable(monitor.x, monitor.width, width) && is_centrable(
                monitor.y,
                monitor.height,
                height,
            ),
            None => true,
        },
    }
}

} // verus!
