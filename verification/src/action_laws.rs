//! What the window is asked to do, and what is remembered and kept of it, by each
//! decision.
use vstd::prelude::*;

use crate::geometry::{Monitor, WindowGeometry, WindowState};
use crate::geometry_laws::{
    has_first_widget, has_widget_fields, is_first_widget, lemma_first_widget, lemma_has_first_widget, normal_fields,
    widget_fields,
};
use crate::window::{
    apply_always_on_top, apply_fallback_window_geometry, apply_geometry, apply_geometry_delayed,
    apply_geometry_in_order, apply_initial_window_state, apply_initial_window_state_fits,
    apply_widget_window_flags, capture_widget_geometry, captured, fallback_actions, first_of, geometry_actions,
    get_always_on_top, get_widget_mode, persist_window_state, save_window_state, saved_normal,
    session_normal_geometry, session_widget_geometry, set_always_on_top, set_widget_mode, set_widget_mode_fits,
    widget_of, Session, Sight, WindowAction, WindowPlan,
};

verus! {

/// One of these actions gives the window this size, and no other gives it one.
pub open spec fn only_size(actions: Seq<WindowAction>, i: int, width: u32, height: u32) -> bool {
    &&& 0 <= i < actions.len()
    &&& actions[i] == WindowAction::SetSize { width, height }
    &&& forall|j: int| 0 <= j < actions.len() && (#[trigger] actions[j]) is SetSize ==> j == i
}

/// One of these actions gives the window this position, and no other gives it
/// one.
pub open spec fn only_position(actions: Seq<WindowAction>, i: int, x: i32, y: i32) -> bool {
    &&& 0 <= i < actions.len()
    &&& actions[i] == WindowAction::SetPosition { x, y }
    &&& forall|j: int| 0 <= j < actions.len() && (#[trigger] actions[j]) is SetPosition ==> j == i
}

/// These actions give the window this geometry and do nothing else: its size
/// once and its position once, in the order that is asked for, with a tenth of a
/// second between them; or, for a window that fills the screen, they maximize
/// it.
pub open spec fn gives(actions: Seq<WindowAction>, geometry: WindowGeometry, size_first: bool) -> bool {
    if geometry.maximized {
        actions.len() == 1 && actions[0] is Maximize
    } else {
        let size = if size_first {
            0
        } else {
            2
        };
        &&& actions.len() == 3
        &&& only_size(actions, size, geometry.width, geometry.height)
        &&& only_position(actions, 2 - size, geometry.x, geometry.y)
        &&& actions[1] == WindowAction::Pause { millis: 100 }
    }
}

/// These actions wait for half a second, and then give the window this geometry.
pub open spec fn gives_later(actions: Seq<WindowAction>, geometry: WindowGeometry, size_first: bool) -> bool {
    &&& actions.len() > 0
    &&& actions[0] == WindowAction::Pause { millis: 500 }
    &&& gives(actions.skip(1), geometry, size_first)
}

/// A geometry is given to the window as it is: its own size and its own position,
/// each once, in the order that is asked for.
pub proof fn law_geometry_is_given(geometry: WindowGeometry, size_first: bool, actions: Vec<WindowAction>)
    requires
        call_ensures(apply_geometry_in_order, (geometry, size_first), actions),
    ensures
        gives(actions@, geometry, size_first),
{
}

/// Without an order, the size is given first.
pub proof fn law_geometry_is_given_size_first(geometry: WindowGeometry, actions: Vec<WindowAction>)
    requires
        call_ensures(apply_geometry, (geometry,), actions),
    ensures
        gives(actions@, geometry, true),
{
}

/// In the background, a geometry is given once other changes have settled.
pub proof fn law_geometry_is_given_later(geometry: WindowGeometry, size_first: bool, actions: Vec<WindowAction>)
    requires
        call_ensures(apply_geometry_delayed, (geometry, size_first), actions),
    ensures
        gives_later(actions@, geometry, size_first),
{
    assert(actions@.skip(1) =~= geometry_actions(geometry, size_first));
}

/// These actions keep the window in the taskbar, able to be minimized, not below
/// the others, and above them as `pinned` says; each once, and nothing else.
pub open spec fn keeps_in_reach(actions: Seq<WindowAction>, pinned: bool) -> bool {
    &&& actions.len() == 4
    &&& actions.contains(WindowAction::SetMinimizable(true))
    &&& actions.contains(WindowAction::SetSkipTaskbar(false))
    &&& actions.contains(WindowAction::SetAlwaysOnBottom(false))
    &&& actions.contains(WindowAction::SetAlwaysOnTop(pinned))
}

/// These actions put the window above the others, or back among them, as
/// `pinned` says, and not below them; each once, and nothing else.
pub open spec fn pins(actions: Seq<WindowAction>, pinned: bool) -> bool {
    &&& actions.len() == 2
    &&& actions.contains(WindowAction::SetAlwaysOnTop(pinned))
    &&& actions.contains(WindowAction::SetAlwaysOnBottom(false))
}

/// The window stays in reach, and above the others if it is pinned.
pub proof fn law_window_stays_in_reach(session: Session, actions: Vec<WindowAction>)
    requires
        call_ensures(apply_widget_window_flags, (&session,), actions),
    ensures
        keeps_in_reach(actions@, session.always_on_top),
{
    assert(actions@[0] == WindowAction::SetMinimizable(true));
    assert(actions@[1] == WindowAction::SetSkipTaskbar(false));
    assert(actions@[2] == WindowAction::SetAlwaysOnBottom(false));
    assert(actions@[3] == WindowAction::SetAlwaysOnTop(session.always_on_top));
}

/// Pinning asks of the window what is asked for, and remembers it, and nothing
/// else.
pub proof fn law_pin_is_given(session: &mut Session, enabled: bool, actions: Vec<WindowAction>)
    requires
        call_ensures(apply_always_on_top, (session, enabled), actions),
    ensures
        pins(actions@, enabled),
        final(session).always_on_top == enabled,
        final(session).widget_mode == old(session).widget_mode,
        final(session).normal == old(session).normal,
        final(session).widget == old(session).widget,
{
    assert(actions@[0] == WindowAction::SetAlwaysOnTop(enabled));
    assert(actions@[1] == WindowAction::SetAlwaysOnBottom(false));
}

/// These actions give the window four fifths of the screen each way, rounded
/// down, and then put it in the middle; without a screen there are none.
pub open spec fn fills_four_fifths(actions: Seq<WindowAction>, monitor: Option<Monitor>) -> bool {
    match monitor {
        Some(screen) => {
            &&& actions.len() == 2
            &&& actions[0] matches WindowAction::SetSize { width, height } && {
                &&& 5 * width <= 4 * screen.width < 5 * width + 5
                &&& 5 * height <= 4 * screen.height < 5 * height + 5
            }
            &&& actions[1] is Center
        },
        None => actions.len() == 0,
    }
}

/// A window that was never placed takes four fifths of the screen, in the middle.
pub proof fn law_unplaced_window_fills_four_fifths(monitor: Option<Monitor>, actions: Vec<WindowAction>)
    requires
        call_ensures(apply_fallback_window_geometry, (monitor,), actions),
    ensures
        fills_four_fifths(actions@, monitor),
{
    lemma_four_fifths(monitor);
}

proof fn lemma_four_fifths(monitor: Option<Monitor>)
    ensures
        fills_four_fifths(fallback_actions(monitor), monitor),
{
    if let Some(screen) = monitor {
        assert(0 <= screen.width * 4 / 5 <= screen.width);
        assert(0 <= screen.height * 4 / 5 <= screen.height);
    }
}

/// What counts as kept before: what was kept, or a small window in the corner.
pub open spec fn counts_as_kept(saved: Option<WindowState>, kept: WindowState) -> bool {
    match saved {
        Some(state) => kept == state,
        None => {
            &&& normal_fields(kept) == (WindowGeometry { width: 800, height: 600, x: 0, y: 0, maximized: false })
            &&& widget_fields(kept) == (WindowGeometry { width: 0, height: 0, x: 0, y: 0, maximized: false })
        },
    }
}

/// What is kept from now on is each geometry that is given, for one that is not
/// given the one that counted as kept before, and both switches.
pub open spec fn is_kept(
    state: WindowState,
    saved: Option<WindowState>,
    normal: Option<WindowGeometry>,
    widget: Option<WindowGeometry>,
    widget_mode: bool,
    always_on_top: bool,
) -> bool {
    &&& normal matches Some(geometry) ==> normal_fields(state) == geometry
    &&& widget matches Some(geometry) ==> widget_fields(state) == geometry
    &&& forall|kept: WindowState| #[trigger]
        counts_as_kept(saved, kept) ==> {
            &&& normal is None ==> normal_fields(state) == normal_fields(kept)
            &&& widget is None ==> widget_fields(state) == widget_fields(kept)
        }
    &&& state.widget_mode == widget_mode
    &&& state.always_on_top == always_on_top
}

/// What is given is kept, and what is not given stays.
pub proof fn law_what_is_given_is_kept(
    session: Session,
    saved: Option<WindowState>,
    normal: Option<WindowGeometry>,
    widget: Option<WindowGeometry>,
    widget_mode: bool,
    state: WindowState,
)
    requires
        call_ensures(persist_window_state, (&session, saved, normal, widget, widget_mode), state),
    ensures
        is_kept(state, saved, normal, widget, widget_mode, session.always_on_top),
{
}

/// The geometry that the widget shows is the one on screen, unless the window
/// still shows the normal geometry, or none: then it is the one that the widget
/// was to take up, as far as there is one.
pub open spec fn is_shown_widget(
    session: Session,
    on_screen: Option<WindowGeometry>,
    widget: Option<WindowGeometry>,
) -> bool {
    &&& on_screen is Some && on_screen != session.normal ==> widget == on_screen
    &&& on_screen is Some && on_screen == session.normal && session.widget is Some ==> widget == session.widget
    &&& on_screen is Some && session.widget is None ==> widget == on_screen
    &&& on_screen is None ==> widget == session.widget
}

/// A widget that the user has moved or resized is captured as it is on screen.
pub proof fn law_shown_widget_is_captured(
    session: Session,
    on_screen: Option<WindowGeometry>,
    widget: Option<WindowGeometry>,
)
    requires
        call_ensures(capture_widget_geometry, (&session, on_screen), widget),
    ensures
        is_shown_widget(session, on_screen, widget),
{
}

/// The normal geometry to go back to: the one that is remembered, or the one that
/// was kept.
pub open spec fn is_normal_to_return_to(
    session: Session,
    saved: Option<WindowState>,
    normal: Option<WindowGeometry>,
) -> bool {
    &&& session.normal is Some ==> normal == session.normal
    &&& session.normal is None && saved is Some ==> normal == Some(normal_fields(saved->0))
    &&& session.normal is None && saved is None ==> normal is None
}

/// The normal geometry to remember: the one on screen, or the one that was kept.
pub open spec fn is_normal_to_remember(sight: Sight, normal: Option<WindowGeometry>) -> bool {
    &&& sight.geometry is Some ==> normal == sight.geometry
    &&& sight.geometry is None && sight.saved is Some ==> normal == Some(normal_fields(sight.saved->0))
    &&& sight.geometry is None && sight.saved is None ==> normal is None
}

/// The geometry that a widget takes up: the one that was kept, or its first one.
pub open spec fn is_widget_to_take_up(
    sight: Sight,
    normal: Option<WindowGeometry>,
    widget: WindowGeometry,
) -> bool {
    if sight.saved matches Some(state) && has_widget_fields(state) {
        widget == widget_fields(sight.saved->0)
    } else {
        is_first_widget(widget, sight.widget_width, sight.widget_height, normal, sight.monitor)
    }
}

/// That geometry can be told in 32 bits.
pub open spec fn has_widget_to_take_up(sight: Sight, normal: Option<WindowGeometry>) -> bool {
    (sight.saved matches Some(state) && has_widget_fields(state)) || has_first_widget(
        sight.widget_width,
        sight.widget_height,
        normal,
        sight.monitor,
    )
}

/// Closing keeps the window as it is shown. In widget mode the widget on screen
/// and the normal geometry to go back to are kept; in normal mode the window on
/// screen is kept, and the widget as it was.
pub proof fn law_closing_keeps_what_is_shown(session: Session, sight: Sight, state: WindowState)
    requires
        call_ensures(save_window_state, (&session, &sight), state),
    ensures
        session.widget_mode ==> exists|normal: Option<WindowGeometry>, widget: Option<WindowGeometry>|
            {
                &&& #[trigger] is_normal_to_return_to(session, sight.saved, normal)
                &&& #[trigger] is_shown_widget(session, sight.geometry, widget)
                &&& is_kept(state, sight.saved, normal, widget, true, session.always_on_top)
            },
        !session.widget_mode ==> is_kept(state, sight.saved, sight.geometry, None, false, session.always_on_top),
        session.widget_mode && sight.geometry is Some && sight.geometry != session.normal ==> widget_fields(state)
            == sight.geometry->0,
        session.widget_mode && session.normal is Some ==> normal_fields(state) == session.normal->0,
        !session.widget_mode && sight.geometry is Some ==> normal_fields(state) == sight.geometry->0,
        !session.widget_mode && sight.saved is Some ==> widget_fields(state) == widget_fields(sight.saved->0),
{
    if session.widget_mode {
        let normal = first_of(session.normal, saved_normal(sight.saved));
        let widget = captured(session, sight.geometry);
        assert(is_normal_to_return_to(session, sight.saved, normal));
        assert(is_shown_widget(session, sight.geometry, widget));
        assert(is_kept(state, sight.saved, normal, widget, true, session.always_on_top));
    }
}

/// Entering widget mode. The normal geometry is remembered; the widget takes up
/// the geometry that was kept for it, or its first one, and that is remembered;
/// both are kept on disk at once, with the mode; the window is kept in reach and
/// is no longer maximized; and in the background it is given the widget's
/// geometry, its size first.
pub proof fn law_entering_widget_mode(
    session: &mut Session,
    sight: Sight,
    done: Result<(bool, WindowPlan), String>,
)
    requires
        call_ensures(set_widget_mode, (session, Some(sight), true), done),
        !old(session).widget_mode,
    ensures
        done is Ok,
        done->Ok_0.0,
        final(session).widget_mode,
        final(session).always_on_top == old(session).always_on_top,
        exists|normal: Option<WindowGeometry>|
            {
                &&& #[trigger] is_normal_to_remember(sight, normal)
                &&& normal is Some ==> final(session).normal == normal
                &&& normal is None ==> final(session).normal == old(session).normal
                &&& final(session).widget matches Some(widget) && {
                    &&& is_widget_to_take_up(sight, normal, widget)
                    &&& gives_later(done->Ok_0.1.later@, widget, true)
                    &&& done->Ok_0.1.now@.len() == 6
                    &&& keeps_in_reach(done->Ok_0.1.now@.take(4), old(session).always_on_top)
                    &&& done->Ok_0.1.now@[4] is Unmaximize
                    &&& done->Ok_0.1.now@[5] matches WindowAction::WriteState(state) && is_kept(
                        state,
                        sight.saved,
                        normal,
                        Some(widget),
                        true,
                        old(session).always_on_top,
                    )
                }
            },
{
    let normal = first_of(sight.geometry, saved_normal(sight.saved));
    let widget = widget_of(sight, normal);
    let plan = done->Ok_0.1@;
    assert(is_normal_to_remember(sight, normal));
    lemma_first_widget(sight.widget_width, sight.widget_height, normal, sight.monitor);
    assert(is_widget_to_take_up(sight, normal, widget));
    assert(plan.later.skip(1) =~= geometry_actions(widget, true));
    let flags = plan.now.take(4);
    assert(flags[0] == WindowAction::SetMinimizable(true));
    assert(flags[1] == WindowAction::SetSkipTaskbar(false));
    assert(flags[2] == WindowAction::SetAlwaysOnBottom(false));
    assert(flags[3] == WindowAction::SetAlwaysOnTop(old(session).always_on_top));
    assert(plan.now[4] is Unmaximize);
    assert(plan.now[5] is WriteState);
}

/// Leaving widget mode. The widget as it is shown is remembered and kept on disk,
/// with the normal geometry and the mode; the window is kept in reach; and in the
/// background it is given the normal geometry, its position first, or, if there
/// is none, four fifths of the screen at once.
pub proof fn law_leaving_widget_mode(
    session: &mut Session,
    sight: Sight,
    done: Result<(bool, WindowPlan), String>,
)
    requires
        call_ensures(set_widget_mode, (session, Some(sight), false), done),
        old(session).widget_mode,
    ensures
        done is Ok,
        !done->Ok_0.0,
        !final(session).widget_mode,
        final(session).always_on_top == old(session).always_on_top,
        final(session).normal == old(session).normal,
        exists|normal: Option<WindowGeometry>, widget: Option<WindowGeometry>|
            {
                &&& #[trigger] is_normal_to_return_to(*old(session), sight.saved, normal)
                &&& #[trigger] is_shown_widget(*old(session), sight.geometry, widget)
                &&& widget is Some ==> final(session).widget == widget
                &&& widget is None ==> final(session).widget == old(session).widget
                &&& done->Ok_0.1.now@.len() >= 5
                &&& done->Ok_0.1.now@[0] matches WindowAction::WriteState(state) && is_kept(
                    state,
                    sight.saved,
                    normal,
                    widget,
                    false,
                    old(session).always_on_top,
                )
                &&& keeps_in_reach(done->Ok_0.1.now@.subrange(1, 5), old(session).always_on_top)
                &&& match normal {
                    Some(geometry) => {
                        &&& done->Ok_0.1.now@.len() == 5
                        &&& gives_later(done->Ok_0.1.later@, geometry, false)
                    },
                    None => {
                        &&& fills_four_fifths(done->Ok_0.1.now@.skip(5), sight.monitor)
                        &&& done->Ok_0.1.later@.len() == 0
                    },
                }
            },
{
    let normal = first_of(old(session).normal, saved_normal(sight.saved));
    let widget = captured(*old(session), sight.geometry);
    let plan = done->Ok_0.1@;
    assert(is_normal_to_return_to(*old(session), sight.saved, normal));
    assert(is_shown_widget(*old(session), sight.geometry, widget));
    let flags = plan.now.subrange(1, 5);
    assert(flags[0] == WindowAction::SetMinimizable(true));
    assert(flags[1] == WindowAction::SetSkipTaskbar(false));
    assert(flags[2] == WindowAction::SetAlwaysOnBottom(false));
    assert(flags[3] == WindowAction::SetAlwaysOnTop(old(session).always_on_top));
    assert(plan.now[0] is WriteState);
    match normal {
        Some(geometry) => {
            assert(plan.later.skip(1) =~= geometry_actions(geometry, false));
        },
        None => {
            lemma_four_fifths(sight.monitor);
            assert(plan.now.skip(5) =~= fallback_actions(sight.monitor));
        },
    }
}

/// A widget that shows another geometry than the normal one is kept and
/// remembered as it is shown when widget mode is left.
pub proof fn law_leaving_keeps_the_shown_widget(
    session: &mut Session,
    sight: Sight,
    shown: WindowGeometry,
    done: Result<(bool, WindowPlan), String>,
)
    requires
        call_ensures(set_widget_mode, (session, Some(sight), false), done),
        old(session).widget_mode,
        sight.geometry == Some(shown),
        old(session).normal != Some(shown),
    ensures
        final(session).widget == Some(shown),
        done is Ok,
        exists|i: int|
            0 <= i < done->Ok_0.1.now@.len() && (#[trigger] done->Ok_0.1.now@[i] matches WindowAction::WriteState(
                state,
            ) && widget_fields(state) == shown),
{
    law_leaving_widget_mode(session, sight, done);
}

/// Asking for the mode that the window is in changes nothing and asks nothing of
/// it.
pub proof fn law_the_same_mode_needs_nothing(
    session: &mut Session,
    sight: Sight,
    enabled: bool,
    done: Result<(bool, WindowPlan), String>,
)
    requires
        call_ensures(set_widget_mode, (session, Some(sight), enabled), done),
        old(session).widget_mode == enabled,
    ensures
        done is Ok,
        done->Ok_0.0 == enabled,
        done->Ok_0.1.now@.len() == 0,
        done->Ok_0.1.later@.len() == 0,
        *final(session) == *old(session),
{
}

/// Without a window neither its mode nor its pin can be switched, and nothing is
/// remembered of the attempt.
pub proof fn law_without_a_window_nothing_is_switched(
    session: &mut Session,
    other: &mut Session,
    saved: Option<WindowState>,
    enabled: bool,
    mode: Result<(bool, WindowPlan), String>,
    pin: Result<(bool, WindowPlan), String>,
)
    requires
        call_ensures(set_widget_mode, (session, None, enabled), mode),
        call_ensures(set_always_on_top, (other, false, saved, enabled), pin),
    ensures
        mode is Err,
        mode->Err_0@ == "main window not found"@,
        *final(session) == *old(session),
        pin is Err,
        pin->Err_0@ == "main window not found"@,
        *final(other) == *old(other),
{
}

/// Pinning asks of the window what is asked for, remembers it, and keeps it on
/// disk; the mode and both geometries stay as they were.
pub proof fn law_pinning(
    session: &mut Session,
    saved: Option<WindowState>,
    enabled: bool,
    done: Result<(bool, WindowPlan), String>,
)
    requires
        call_ensures(set_always_on_top, (session, true, saved, enabled), done),
    ensures
        done is Ok,
        done->Ok_0.0 == enabled,
        final(session).always_on_top == enabled,
        final(session).widget_mode == old(session).widget_mode,
        final(session).normal == old(session).normal,
        final(session).widget == old(session).widget,
        done->Ok_0.1.now@.len() == 3,
        pins(done->Ok_0.1.now@.take(2), enabled),
        done->Ok_0.1.now@[2] matches WindowAction::WriteState(state) && is_kept(
            state,
            saved,
            None,
            None,
            old(session).widget_mode,
            enabled,
        ),
        done->Ok_0.1.later@.len() == 0,
{
    let asked = done->Ok_0.1.now@.take(2);
    assert(asked[0] == WindowAction::SetAlwaysOnTop(enabled));
    assert(asked[1] == WindowAction::SetAlwaysOnBottom(false));
    assert(done->Ok_0.1.now@[2] is WriteState);
}

/// Starting without anything kept: normal mode, not pinned, four fifths of the
/// screen.
pub proof fn law_first_start(session: &mut Session, sight: Sight, actions: Vec<WindowAction>)
    requires
        call_ensures(apply_initial_window_state, (session, &sight), actions),
        sight.saved is None,
    ensures
        fills_four_fifths(actions@, sight.monitor),
        !final(session).widget_mode,
        !final(session).always_on_top,
        final(session).normal == old(session).normal,
        final(session).widget == old(session).widget,
{
    lemma_four_fifths(sight.monitor);
}

/// Starting with a state that was kept: its mode and its pin are taken up and
/// remembered, the window is kept in reach, and it is given the geometry that was
/// kept for that mode (in widget mode the first one, if none was kept), its size
/// first.
pub proof fn law_later_start(session: &mut Session, sight: Sight, state: WindowState, actions: Vec<WindowAction>)
    requires
        call_ensures(apply_initial_window_state, (session, &sight), actions),
        sight.saved == Some(state),
    ensures
        final(session).widget_mode == state.widget_mode,
        final(session).always_on_top == state.always_on_top,
        final(session).normal == old(session).normal,
        final(session).widget == old(session).widget,
        actions@.len() >= 6,
        pins(actions@.take(2), state.always_on_top),
        keeps_in_reach(actions@.subrange(2, 6), state.always_on_top),
        !state.widget_mode ==> gives(actions@.skip(6), normal_fields(state), true),
        state.widget_mode && has_widget_fields(state) ==> gives(actions@.skip(6), widget_fields(state), true),
        state.widget_mode && !has_widget_fields(state) ==> exists|widget: WindowGeometry| #[trigger]
            is_first_widget(
                widget,
                sight.widget_width,
                sight.widget_height,
                Some(normal_fields(state)),
                sight.monitor,
            ) && gives(actions@.skip(6), widget, true),
{
    let normal = normal_fields(state);
    let pin = actions@.take(2);
    assert(pin[0] == WindowAction::SetAlwaysOnTop(state.always_on_top));
    assert(pin[1] == WindowAction::SetAlwaysOnBottom(false));
    let flags = actions@.subrange(2, 6);
    assert(flags[0] == WindowAction::SetMinimizable(true));
    assert(flags[1] == WindowAction::SetSkipTaskbar(false));
    assert(flags[2] == WindowAction::SetAlwaysOnBottom(false));
    assert(flags[3] == WindowAction::SetAlwaysOnTop(state.always_on_top));
    lemma_first_widget(sight.widget_width, sight.widget_height, Some(normal), sight.monitor);
    let geometry = if state.widget_mode {
        widget_of(sight, Some(normal))
    } else {
        normal
    };
    assert(actions@.skip(6) =~= geometry_actions(geometry, true));
}

/// Whether the mode can be switched, and whether the application can start, is
/// told exactly, and it can be asked for then.
pub proof fn law_what_fits_is_told(
    session: &mut Session,
    sight: Sight,
    enabled: bool,
    switch_fits: bool,
    start_fits: bool,
)
    requires
        call_ensures(set_widget_mode_fits, (&*old(session), &sight, enabled), switch_fits),
        call_ensures(apply_initial_window_state_fits, (&sight,), start_fits),
    ensures
        forall|normal: Option<WindowGeometry>| #[trigger]
            is_normal_to_remember(sight, normal) ==> switch_fits == (enabled && !old(session).widget_mode
                ==> has_widget_to_take_up(sight, normal)),
        switch_fits ==> call_requires(set_widget_mode, (session, Some(sight), enabled)),
        call_requires(set_widget_mode, (session, None, enabled)),
        start_fits == (sight.saved matches Some(state) && state.widget_mode ==> has_widget_to_take_up(
            sight,
            Some(normal_fields(sight.saved->0)),
        )),
        start_fits ==> call_requires(apply_initial_window_state, (session, &sight)),
{
    let normal = first_of(sight.geometry, saved_normal(sight.saved));
    lemma_has_first_widget(sight.widget_width, sight.widget_height, normal, sight.monitor);
    if let Some(state) = sight.saved {
        lemma_has_first_widget(
            sight.widget_width,
            sight.widget_height,
            Some(normal_fields(state)),
            sight.monitor,
        );
    }
}

/// A session at its start remembers nothing, and what is remembered is told.
pub proof fn law_session_tells_what_it_remembers(
    fresh: Session,
    session: Session,
    widget_mode: bool,
    always_on_top: bool,
    normal: Option<WindowGeometry>,
    widget: Option<WindowGeometry>,
)
    requires
        call_ensures(Session::new, (), fresh),
        call_ensures(get_widget_mode, (&session,), widget_mode),
        call_ensures(get_always_on_top, (&session,), always_on_top),
        call_ensures(session_normal_geometry, (&session,), normal),
        call_ensures(session_widget_geometry, (&session,), widget),
    ensures
        fresh.widget_mode == false,
        fresh.always_on_top == false,
        fresh.normal is None,
        fresh.widget is None,
        widget_mode == session.widget_mode,
        always_on_top == session.always_on_top,
        normal == session.normal,
        widget == session.widget,
{
}

} // verus!
