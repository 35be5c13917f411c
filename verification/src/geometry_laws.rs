//! What holds of the window's place on screen, and of what is kept of it.
use vstd::prelude::*;

use crate::geometry::{
    can_default_widget, centred, current_window_geometry, default_widget, default_widget_geometry,
    default_widget_geometry_fits, fallback_window_state, Monitor, WindowGeometry, WindowState,
};

verus! {

/// What is kept of the window for normal mode.
pub open spec fn normal_fields(state: WindowState) -> WindowGeometry {
    WindowGeometry {
        width: state.width,
        height: state.height,
        x: state.x,
        y: state.y,
        maximized: state.maximized,
    }
}

/// What is kept of the window for widget mode.
pub open spec fn widget_fields(state: WindowState) -> WindowGeometry {
    WindowGeometry {
        width: state.widget_width,
        height: state.widget_height,
        x: state.widget_x,
        y: state.widget_y,
        maximized: state.widget_maximized,
    }
}

/// A widget geometry was kept: it has a width and a height.
pub open spec fn has_widget_fields(state: WindowState) -> bool {
    state.widget_width > 0 && state.widget_height > 0
}

/// A kept state tells its two geometries, that of the widget only if one was
/// kept.
pub proof fn law_kept_geometries_are_told(
    state: WindowState,
    normal: WindowGeometry,
    widget: Option<WindowGeometry>,
)
    requires
        call_ensures(WindowState::normal_geometry, (&state,), normal),
        call_ensures(WindowState::widget_geometry, (&state,), widget),
    ensures
        normal == normal_fields(state),
        has_widget_fields(state) ==> widget == Some(widget_fields(state)),
        !has_widget_fields(state) ==> widget is None,
{
}

/// Keeping another normal geometry changes that geometry and nothing else.
pub proof fn law_normal_geometry_is_set(state: &mut WindowState, geometry: WindowGeometry, done: ())
    requires
        call_ensures(WindowState::set_normal_geometry, (state, geometry), done),
    ensures
        normal_fields(*final(state)) == geometry,
        widget_fields(*final(state)) == widget_fields(*old(state)),
        final(state).widget_mode == old(state).widget_mode,
        final(state).always_on_top == old(state).always_on_top,
{
}

/// Keeping another widget geometry changes that geometry and nothing else.
pub proof fn law_widget_geometry_is_set(state: &mut WindowState, geometry: WindowGeometry, done: ())
    requires
        call_ensures(WindowState::set_widget_geometry, (state, geometry), done),
    ensures
        widget_fields(*final(state)) == geometry,
        normal_fields(*final(state)) == normal_fields(*old(state)),
        final(state).widget_mode == old(state).widget_mode,
        final(state).always_on_top == old(state).always_on_top,
{
}

/// Before anything was kept, a window of 800 by 600 in the corner counts as
/// kept, in normal mode, not pinned, and without a widget.
pub proof fn law_fallback_is_a_small_window(state: WindowState)
    requires
        call_ensures(fallback_window_state, (), state),
    ensures
        normal_fields(state) == (WindowGeometry { width: 800, height: 600, x: 0, y: 0, maximized: false }),
        widget_fields(state) == (WindowGeometry { width: 0, height: 0, x: 0, y: 0, maximized: false }),
        !state.widget_mode,
        !state.always_on_top,
{
}

/// A window's geometry is what it tells of itself, and it has one only if it
/// tells both its size and its position.
pub proof fn law_window_tells_its_geometry(
    inner_size: Option<(u32, u32)>,
    outer_position: Option<(i32, i32)>,
    maximized: Option<bool>,
    geometry: Option<WindowGeometry>,
)
    requires
        call_ensures(current_window_geometry, (inner_size, outer_position, maximized), geometry),
    ensures
        geometry is Some <==> inner_size is Some && outer_position is Some,
        geometry matches Some(g) ==> {
            &&& inner_size == Some((g.width, g.height))
            &&& outer_position == Some((g.x, g.y))
            &&& g.maximized <==> maximized == Some(true)
        },
{
}

/// A length in pixels, where more than 31 bits count as negative.
pub open spec fn wrapped(n: u32) -> int {
    if n < 0x8000_0000 {
        n as int
    } else {
        n - 0x1_0000_0000
    }
}

/// What begins at `begin` and is `inner` long lies in the middle of what begins
/// at `start` and is `outer` long: as much is left before it as behind it, or
/// sticks out if it is the longer one, and where the two cannot be the same, one
/// pixel less before it.
pub open spec fn in_the_middle(start: i32, outer: u32, inner: u32, begin: int) -> bool {
    let before = begin - start;
    let behind = wrapped(outer) - wrapped(inner) - before;
    if wrapped(outer) >= wrapped(inner) {
        behind == before || behind == before + 1
    } else {
        behind == before || behind == before - 1
    }
}

/// The middle, and the room around it, are numbers of 32 bits.
pub open spec fn has_middle(start: i32, outer: u32, inner: u32) -> bool {
    &&& i32::MIN <= wrapped(outer) - wrapped(inner) <= i32::MAX
    &&& exists|begin: int| i32::MIN <= begin <= i32::MAX && #[trigger] in_the_middle(start, outer, inner, begin)
}

/// One pixel at least.
pub open spec fn at_least_one(n: u32) -> u32 {
    if n == 0 {
        1
    } else {
        n
    }
}

/// The normal window has a position that a new widget can take over.
pub open spec fn is_placed(normal: Option<WindowGeometry>) -> bool {
    normal matches Some(window) && !window.maximized
}

/// The first geometry of a widget of this size: at least one pixel each way, not
/// maximized; where the normal window is, or in the middle of the screen if that
/// has no position of its own, or in the corner without a screen.
pub open spec fn is_first_widget(
    widget: WindowGeometry,
    width: u32,
    height: u32,
    normal: Option<WindowGeometry>,
    monitor: Option<Monitor>,
) -> bool {
    &&& widget.width == at_least_one(width)
    &&& widget.height == at_least_one(height)
    &&& !widget.maximized
    &&& is_placed(normal) ==> widget.x == normal->0.x && widget.y == normal->0.y
    &&& !is_placed(normal) && monitor is Some ==> {
        &&& has_middle(monitor->0.x, monitor->0.width, widget.width) ==> in_the_middle(
            monitor->0.x,
            monitor->0.width,
            widget.width,
            widget.x as int,
        )
        &&& has_middle(monitor->0.y, monitor->0.height, widget.height) ==> in_the_middle(
            monitor->0.y,
            monitor->0.height,
            widget.height,
            widget.y as int,
        )
    }
    &&& !is_placed(normal) && monitor is None ==> widget.x == 0 && widget.y == 0
}

/// The first geometry of a widget can be told in 32 bits.
pub open spec fn has_first_widget(
    width: u32,
    height: u32,
    normal: Option<WindowGeometry>,
    monitor: Option<Monitor>,
) -> bool {
    !is_placed(normal) && monitor is Some ==> {
        &&& has_middle(monitor->0.x, monitor->0.width, at_least_one(width))
        &&& has_middle(monitor->0.y, monitor->0.height, at_least_one(height))
    }
}

/// There is one middle, and it is where `centred` puts it.
pub(crate) proof fn lemma_middle(start: i32, outer: u32, inner: u32)
    ensures
        forall|begin: int| #[trigger]
            in_the_middle(start, outer, inner, begin) <==> begin == centred(start, outer, inner),
{
    assert forall|begin: int| #[trigger] in_the_middle(start, outer, inner, begin) <==> begin == centred(
        start,
        outer,
        inner,
    ) by {}
    assert(in_the_middle(start, outer, inner, centred(start, outer, inner)));
}

/// What can be computed in 32 bits is what can be told in 32 bits.
pub(crate) proof fn lemma_has_first_widget(
    width: u32,
    height: u32,
    normal: Option<WindowGeometry>,
    monitor: Option<Monitor>,
)
    ensures
        can_default_widget(width, height, normal, monitor) <==> has_first_widget(width, height, normal, monitor),
{
    if let Some(screen) = monitor {
        lemma_middle(screen.x, screen.width, at_least_one(width));
        lemma_middle(screen.y, screen.height, at_least_one(height));
        assert(in_the_middle(
            screen.x,
            screen.width,
            at_least_one(width),
            centred(screen.x, screen.width, at_least_one(width)),
        ));
        assert(in_the_middle(
            screen.y,
            screen.height,
            at_least_one(height),
            centred(screen.y, screen.height, at_least_one(height)),
        ));
    }
}

/// A new widget has the size that is asked for, and stands where the normal
/// window is, or in the middle of the screen, or in the corner.
pub proof fn law_new_widget_is_placed(
    width: u32,
    height: u32,
    normal: Option<WindowGeometry>,
    monitor: Option<Monitor>,
    widget: WindowGeometry,
)
    requires
        call_ensures(default_widget_geometry, (width, height, normal, monitor), widget),
    ensures
        is_first_widget(widget, width, height, normal, monitor),
{
    lemma_first_widget(width, height, normal, monitor);
}

/// The first geometry of a widget is one.
pub(crate) proof fn lemma_first_widget(
    width: u32,
    height: u32,
    normal: Option<WindowGeometry>,
    monitor: Option<Monitor>,
)
    ensures
        is_first_widget(default_widget(width, height, normal, monitor), width, height, normal, monitor),
{
    if let Some(screen) = monitor {
        lemma_middle(screen.x, screen.width, at_least_one(width));
        lemma_middle(screen.y, screen.height, at_least_one(height));
    }
}

/// Whether a new widget can be placed is told exactly, and it can be asked for
/// then.
pub proof fn law_new_widget_can_be_placed(
    width: u32,
    height: u32,
    normal: Option<WindowGeometry>,
    monitor: Option<Monitor>,
    fits: bool,
)
    requires
        call_ensures(default_widget_geometry_fits, (width, height, normal, monitor), fits),
    ensures
        fits == has_first_widget(width, height, normal, monitor),
        fits ==> call_requires(default_widget_geometry, (width, height, normal, monitor)),
{
    lemma_has_first_widget(width, height, normal, monitor);
}

/// On every screen of an ordinary size a new widget can be placed.
pub proof fn law_ordinary_screens_have_a_middle(
    width: u32,
    height: u32,
    normal: Option<WindowGeometry>,
    screen: Monitor,
)
    requires
        width <= 0x1000_0000,
        height <= 0x1000_0000,
        screen.width <= 0x1000_0000,
        screen.height <= 0x1000_0000,
        -0x1000_0000 <= screen.x <= 0x1000_0000,
        -0x1000_0000 <= screen.y <= 0x1000_0000,
    ensures
        has_first_widget(width, height, normal, Some(screen)),
        call_requires(default_widget_geometry, (width, height, normal, Some(screen))),
{
    lemma_has_first_widget(width, height, normal, Some(screen));
}

} // verus!
