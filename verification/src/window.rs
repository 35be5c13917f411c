//! What is done to the window: when the application starts, when the user
//! switches its mode or pins it, and when it closes.
use vstd::prelude::*;

use crate::geometry::{
    can_default_widget, default_widget, default_widget_geometry, default_widget_geometry_fits,
    fallback_state, fallback_window_state, Monitor, WindowGeometry, WindowState,
};

verus! {

/// What the running application remembers of its window.
#[derive(Clone, Copy, PartialEq, Eq, Structural, Debug)]
pub struct Session {
    /// The window is in widget mode.
    pub widget_mode: bool,
    /// The window is kept above all others.
    pub always_on_top: bool,
    /// The geometry that the window had when it last left normal mode.
    pub normal: Option<WindowGeometry>,
    /// The geometry that the window was last given, or had, in widget mode.
    pub widget: Option<WindowGeometry>,
}

/// What is remembered when nothing is known of the window yet.
pub open spec fn new_session() -> Session {
    Session { widget_mode: false, always_on_top: false, normal: None, widget: None }
}

impl Session {
    /// A session at its start.
    pub fn new() -> (session: Session)
        ensures
            session == new_session(),
    {
        Session { widget_mode: false, always_on_top: false, normal: None, widget: None }
    }
}

/// The geometry that the window had when it last left normal mode.
pub fn session_normal_geometry(session: &Session) -> (geometry: Option<WindowGeometry>)
    ensures
        geometry == session.normal,
{
    session.normal
}

/// The geometry that the window was last given, or had, in widget mode.
pub fn session_widget_geometry(session: &Session) -> (geometry: Option<WindowGeometry>)
    ensures
        geometry == session.widget,
{
    session.widget
}

/// Tells whether the window is in widget mode.
pub fn get_widget_mode(session: &Session) -> (enabled: bool)
    ensures
        enabled == session.widget_mode,
{
    session.widget_mode
}

/// Tells whether the window is kept above all others.
pub fn get_always_on_top(session: &Session) -> (enabled: bool)
    ensures
        enabled == session.always_on_top,
{
    session.always_on_top
}

/// What can be seen around a decision: the window as it is on screen, what was
/// kept of it on disk, how large a widget is on its screen, and that screen.
#[derive(Clone, Copy, PartialEq, Eq, Structural, Debug)]
pub struct Sight {
    pub geometry: Option<WindowGeometry>,
    pub saved: Option<WindowState>,
    pub widget_width: u32,
    pub widget_height: u32,
    pub monitor: Option<Monitor>,
}

/// One thing to do with the window. Whether it succeeds changes nothing.
#[derive(Clone, Copy, PartialEq, Eq, Structural, Debug)]
pub enum WindowAction {
    Maximize,
    Unmaximize,
    SetSize { width: u32, height: u32 },
    SetPosition { x: i32, y: i32 },
    Center,
    SetMinimizable(bool),
    SetSkipTaskbar(bool),
    SetAlwaysOnBottom(bool),
    SetAlwaysOnTop(bool),
    /// Wait, so that what was asked of the window before can settle.
    Pause { millis: u64 },
    /// Keep this on disk.
    WriteState(WindowState),
}

/// What to do, in this order: `now` at once, then `later` in the background.
#[derive(Debug)]
pub struct WindowPlan {
    pub now: Vec<WindowAction>,
    pub later: Vec<WindowAction>,
}

/// What a `WindowPlan` says.
#[verifier::ext_equal]
pub struct Plan {
    pub now: Seq<WindowAction>,
    pub later: Seq<WindowAction>,
}

impl View for WindowPlan {
    type V = Plan;

    open spec fn view(&self) -> Plan {
        Plan { now: self.now@, later: self.later@ }
    }
}

/// Giving the window a size and a position, one after the other with a pause
/// between: where each may move the other, the last one holds. A geometry that
/// fills the screen is given by maximizing alone.
pub open spec fn geometry_actions(geometry: WindowGeometry, size_first: bool) -> Seq<WindowAction> {
    let size = WindowAction::SetSize { width: geometry.width, height: geometry.height };
    let position = WindowAction::SetPosition { x: geometry.x, y: geometry.y };
    let pause = WindowAction::Pause { millis: 100 };
    if geometry.maximized {
        seq![WindowAction::Maximize]
    } else if size_first {
        seq![size, pause, position]
    } else {
        seq![position, pause, size]
    }
}

/// Gives the window a geometry, in the order that is asked for.
pub fn apply_geometry_in_order(geometry: WindowGeometry, size_first: bool) -> (actions: Vec<WindowAction>)
    ensures
        actions@ == geometry_actions(geometry, size_first),
{
    if geometry.maximized {
        return vec![WindowAction::Maximize];
    }
    let size = WindowAction::SetSize { width: geometry.width, height: geometry.height };
    let position = WindowAction::SetPosition { x: geometry.x, y: geometry.y };
    let pause = WindowAction::Pause { millis: 100 };
    if size_first {
        vec![size, pause, position]
    } else {
        vec![position, pause, size]
    }
}

/// Gives the window a geometry, its size first.
pub fn apply_geometry(geometry: WindowGeometry) -> (actions: Vec<WindowAction>)
    ensures
        actions@ == geometry_actions(geometry, true),
{
    apply_geometry_in_order(geometry, true)
}

/// Giving the window a geometry once other changes have settled.
pub open spec fn delayed_actions(geometry: WindowGeometry, size_first: bool) -> Seq<WindowAction> {
    seq![WindowAction::Pause { millis: 500 }] + geometry_actions(geometry, size_first)
}

/// Gives the window a geometry once other changes have settled. This is for
/// the background.
pub fn apply_geometry_delayed(geometry: WindowGeometry, size_first: bool) -> (actions: Vec<WindowAction>)
    ensures
        actions@ == delayed_actions(geometry, size_first),
{
    let mut actions = vec![WindowAction::Pause { millis: 500 }];
    let mut rest = apply_geometry_in_order(geometry, size_first);
    actions.append(&mut rest);
    actions
}

/// Keeping the window in the taskbar, able to be minimized, and above the
/// others if it is pinned.
pub open spec fn flag_actions(always_on_top: bool) -> Seq<WindowAction> {
    seq![
        WindowAction::SetMinimizable(true),
        WindowAction::SetSkipTaskbar(false),
        WindowAction::SetAlwaysOnBottom(false),
        WindowAction::SetAlwaysOnTop(always_on_top),
    ]
}

/// Keeps the window in the taskbar, able to be minimized, and above the others
/// if it is pinned.
pub fn apply_widget_window_flags(session: &Session) -> (actions: Vec<WindowAction>)
    ensures
        actions@ == flag_actions(session.always_on_top),
{
    vec![
        WindowAction::SetMinimizable(true),
        WindowAction::SetSkipTaskbar(false),
        WindowAction::SetAlwaysOnBottom(false),
        WindowAction::SetAlwaysOnTop(session.always_on_top),
    ]
}

/// Putting the window above the others, or back among them.
pub open spec fn pin_actions(enabled: bool) -> Seq<WindowAction> {
    seq![WindowAction::SetAlwaysOnTop(enabled), WindowAction::SetAlwaysOnBottom(false)]
}

/// Puts the window above the others, or back among them, and remembers it.
pub fn apply_always_on_top(session: &mut Session, enabled: bool) -> (actions: Vec<WindowAction>)
    ensures
        *final(session) == (Session { always_on_top: enabled, ..*old(session) }),
        actions@ == pin_actions(enabled),
{
    session.always_on_top = enabled;
    vec![WindowAction::SetAlwaysOnTop(enabled), WindowAction::SetAlwaysOnBottom(false)]
}

/// The size for a window that was never placed: four fifths of the screen each
/// way, in the middle. Without a screen nothing is done.
pub open spec fn fallback_actions(monitor: Option<Monitor>) -> Seq<WindowAction> {
    match monitor {
        Some(monitor) => seq![
            WindowAction::SetSize {
                width: (monitor.width * 4 / 5) as u32,
                height: (monitor.height * 4 / 5) as u32,
            },
            WindowAction::Center,
        ],
        None => seq![],
    }
}

/// Gives a size to a window that was never placed.
pub fn apply_fallback_window_geometry(monitor: Option<Monitor>) -> (actions: Vec<WindowAction>)
    ensures
        actions@ == fallback_actions(monitor),
{
    match monitor {
        Some(monitor) => {
            let width = (monitor.width as u64 * 4 / 5) as u32;
            let height = (monitor.height as u64 * 4 / 5) as u32;
            vec![WindowAction::SetSize { width, height }, WindowAction::Center]
        },
        None => Vec::new(),
    }
}

/// What counts as kept on disk: what was kept, or `fallback_state` if nothing
/// was.
pub open spec fn or_fallback(saved: Option<WindowState>) -> WindowState {
    match saved {
        Some(state) => state,
        None => fallback_state(),
    }
}

/// What is kept on disk from now on: what counted as kept before, with each
/// geometry that is given, and with both switches. A geometry that is not given
/// stays as it was kept.
pub open spec fn persisted(
    saved: Option<WindowState>,
    always_on_top: bool,
    normal: Option<WindowGeometry>,
    widget: Option<WindowGeometry>,
    widget_mode: bool,
) -> WindowState {
    let kept = or_fallback(saved);
    let kept = match normal {
        Some(geometry) => kept.with_normal(geometry),
        None => kept,
    };
    let kept = match widget {
        Some(geometry) => kept.with_widget(geometry),
        None => kept,
    };
    WindowState { widget_mode, always_on_top, ..kept }
}

/// What to keep on disk from now on.
pub fn persist_window_state(
    session: &Session,
    saved: Option<WindowState>,
    normal: Option<WindowGeometry>,
    widget: Option<WindowGeometry>,
    widget_mode: bool,
) -> (state: WindowState)
    ensures
        state == persisted(saved, session.always_on_top, normal, widget, widget_mode),
{
    let mut state = match saved {
        Some(state) => state,
        None => fallback_window_state(),
    };
    if let Some(normal) = normal {
        state.set_normal_geometry(normal);
    }
    if let Some(widget) = widget {
        state.set_widget_geometry(widget);
    }
    state.widget_mode = widget_mode;
    state.always_on_top = session.always_on_top;
    state
}

/// The geometry of the widget: the one on screen, unless that is still the
/// normal one while another is on its way. Without one on screen, the one that
/// is on its way.
pub open spec fn captured(session: Session, on_screen: Option<WindowGeometry>) -> Option<WindowGeometry> {
    let on_its_way = session.widget is Some && session.normal is Some && session.widget != session.normal
        && on_screen == session.normal;
    if on_screen is None || on_its_way {
        session.widget
    } else {
        on_screen
    }
}

/// The geometry of the widget.
pub fn capture_widget_geometry(session: &Session, on_screen: Option<WindowGeometry>) -> (geometry: Option<
    WindowGeometry,
>)
    ensures
        geometry == captured(*session, on_screen),
{
    match (on_screen, session.widget, session.normal) {
        (Some(actual), Some(intended), Some(normal)) if actual == normal && intended != normal => Some(
            intended,
        ),
        (Some(actual), _, _) => Some(actual),
        (None, intended, _) => intended,
    }
}

/// The normal geometry as it was kept on disk.
pub open spec fn saved_normal(saved: Option<WindowState>) -> Option<WindowGeometry> {
    match saved {
        Some(state) => Some(state.normal()),
        None => None,
    }
}

/// The first one if there is one, else the second.
pub open spec fn first_of(
    first: Option<WindowGeometry>,
    second: Option<WindowGeometry>,
) -> Option<WindowGeometry> {
    if first is Some {
        first
    } else {
        second
    }
}

fn or_saved_normal(first: Option<WindowGeometry>, saved: Option<WindowState>) -> (geometry: Option<
    WindowGeometry,
>)
    ensures
        geometry == first_of(first, saved_normal(saved)),
{
    match first {
        Some(geometry) => Some(geometry),
        None => match saved {
            Some(state) => Some(state.normal_geometry()),
            None => None,
        },
    }
}

/// The widget geometry as it was kept on disk.
pub open spec fn saved_widget(saved: Option<WindowState>) -> Option<WindowGeometry> {
    match saved {
        Some(state) => state.widget(),
        None => None,
    }
}

/// The geometry that a window takes up in widget mode: the one kept on disk, or
/// the first one.
pub open spec fn widget_of(sight: Sight, normal: Option<WindowGeometry>) -> WindowGeometry {
    match saved_widget(sight.saved) {
        Some(geometry) => geometry,
        None => default_widget(sight.widget_width, sight.widget_height, normal, sight.monitor),
    }
}

/// Whether that geometry can be computed in 32 bits.
pub open spec fn can_widget_of(sight: Sight, normal: Option<WindowGeometry>) -> bool {
    saved_widget(sight.saved) is None ==> can_default_widget(
        sight.widget_width,
        sight.widget_height,
        normal,
        sight.monitor,
    )
}

fn find_widget(sight: &Sight, normal: Option<WindowGeometry>) -> (geometry: WindowGeometry)
    requires
        can_widget_of(*sight, normal),
    ensures
        geometry == widget_of(*sight, normal),
{
    let saved = match sight.saved {
        Some(state) => state.widget_geometry(),
        None => None,
    };
    match saved {
        Some(geometry) => geometry,
        None => default_widget_geometry(sight.widget_width, sight.widget_height, normal, sight.monitor),
    }
}

fn can_find_widget(sight: &Sight, normal: Option<WindowGeometry>) -> (can: bool)
    ensures
        can == can_widget_of(*sight, normal),
{
    let saved = match sight.saved {
        Some(state) => state.widget_geometry(),
        None => None,
    };
    match saved {
        Some(_) => true,
        None => default_widget_geometry_fits(sight.widget_width, sight.widget_height, normal, sight.monitor),
    }
}

/// Whether the start can be computed in 32 bits.
pub open spec fn can_start(sight: Sight) -> bool {
    sight.saved is Some && sight.saved->0.widget_mode ==> can_widget_of(
        sight,
        Some(sight.saved->0.normal()),
    )
}

/// What is done with the window at the start: it takes up the mode, the pin and
/// the geometry that were kept, or a size of its own if nothing was.
pub open spec fn start_actions(sight: Sight) -> Seq<WindowAction> {
    match sight.saved {
        Some(state) => {
            let geometry = if state.widget_mode {
                widget_of(sight, Some(state.normal()))
            } else {
                state.normal()
            };
            pin_actions(state.always_on_top) + flag_actions(state.always_on_top) + geometry_actions(
                geometry,
                true,
            )
        },
        None => fallback_actions(sight.monitor),
    }
}

/// What is remembered once the application has started: the mode and the pin that
/// were kept, or neither.
pub open spec fn starting(session: Session, sight: Sight) -> Session {
    Session {
        widget_mode: sight.saved is Some && sight.saved->0.widget_mode,
        always_on_top: sight.saved is Some && sight.saved->0.always_on_top,
        ..session
    }
}

/// Puts the window where it was when the application last ran.
pub fn apply_initial_window_state(session: &mut Session, sight: &Sight) -> (actions: Vec<WindowAction>)
    requires
        can_start(*sight),
    ensures
        *final(session) == starting(*old(session), *sight),
        actions@ == start_actions(*sight),
{
    if let Some(state) = sight.saved {
        let normal = state.normal_geometry();
        session.widget_mode = state.widget_mode;
        let mut actions = apply_always_on_top(session, state.always_on_top);
        let mut flags = apply_widget_window_flags(session);
        actions.append(&mut flags);
        let mut placing = if state.widget_mode {
            apply_geometry(find_widget(sight, Some(normal)))
        } else {
            apply_geometry(normal)
        };
        actions.append(&mut placing);
        return actions;
    }
    session.widget_mode = false;
    session.always_on_top = false;
    apply_fallback_window_geometry(sight.monitor)
}

/// Tells whether `apply_initial_window_state` can be computed in 32 bits.
pub fn apply_initial_window_state_fits(sight: &Sight) -> (fits: bool)
    ensures
        fits == can_start(*sight),
{
    match sight.saved {
        Some(state) => if state.widget_mode {
            can_find_widget(sight, Some(state.normal_geometry()))
        } else {
            true
        },
        None => true,
    }
}

/// What is kept on disk when the window closes. In widget mode that is the
/// normal geometry as it is remembered, and the widget's; in normal mode it is
/// the normal geometry on screen, and the widget's stays as it was kept.
pub open spec fn closing_state(session: Session, sight: Sight) -> WindowState {
    if session.widget_mode {
        persisted(
            sight.saved,
            session.always_on_top,
            first_of(session.normal, saved_normal(sight.saved)),
            captured(session, sight.geometry),
            true,
        )
    } else {
        persisted(sight.saved, session.always_on_top, sight.geometry, None, false)
    }
}

/// What to keep on disk when the window closes.
pub fn save_window_state(session: &Session, sight: &Sight) -> (state: WindowState)
    ensures
        state == closing_state(*session, *sight),
{
    if session.widget_mode {
        let normal = or_saved_normal(session_normal_geometry(session), sight.saved);
        let widget = capture_widget_geometry(session, sight.geometry);
        persist_window_state(session, sight.saved, normal, widget, true)
    } else {
        persist_window_state(session, sight.saved, sight.geometry, None, false)
    }
}

/// Entering widget mode: what is remembered from then on, and what is done. The
/// normal geometry is remembered, both geometries are kept on disk at once, and
/// the window takes up the widget's, its size first.
pub open spec fn entering(session: Session, sight: Sight) -> (Session, Plan) {
    let normal = first_of(sight.geometry, saved_normal(sight.saved));
    let widget = widget_of(sight, normal);
    (
        Session {
            widget_mode: true,
            normal: first_of(normal, session.normal),
            widget: Some(widget),
            ..session
        },
        Plan {
            now: flag_actions(session.always_on_top) + seq![
                WindowAction::Unmaximize,
                WindowAction::WriteState(
                    persisted(sight.saved, session.always_on_top, normal, Some(widget), true),
                ),
            ],
            later: delayed_actions(widget, true),
        },
    )
}

/// Leaving widget mode: what is remembered from then on, and what is done. The
/// widget's geometry is remembered, both geometries are kept on disk, and the
/// window takes up the normal one, its position first.
pub open spec fn leaving(session: Session, sight: Sight) -> (Session, Plan) {
    let normal = first_of(session.normal, saved_normal(sight.saved));
    let widget = captured(session, sight.geometry);
    let kept = seq![
        WindowAction::WriteState(persisted(sight.saved, session.always_on_top, normal, widget, false)),
    ] + flag_actions(session.always_on_top);
    (
        Session { widget_mode: false, widget: first_of(widget, session.widget), ..session },
        match normal {
            Some(geometry) => Plan { now: kept, later: delayed_actions(geometry, false) },
            None => Plan { now: kept + fallback_actions(sight.monitor), later: seq![] },
        },
    )
}

/// Switching the mode. Nothing is done where the window is in that mode.
pub open spec fn switching(session: Session, sight: Sight, enabled: bool) -> (Session, Plan) {
    if enabled == session.widget_mode {
        (session, Plan { now: seq![], later: seq![] })
    } else if enabled {
        entering(session, sight)
    } else {
        leaving(session, sight)
    }
}

/// Whether switching the mode can be computed in 32 bits.
pub open spec fn can_switch(session: Session, sight: Sight, enabled: bool) -> bool {
    enabled && !session.widget_mode ==> can_widget_of(
        sight,
        first_of(sight.geometry, saved_normal(sight.saved)),
    )
}

fn enter_widget_mode(session: &mut Session, sight: &Sight) -> (plan: WindowPlan)
    requires
        can_widget_of(*sight, first_of(sight.geometry, saved_normal(sight.saved))),
    ensures
        (*final(session), plan@) == entering(*old(session), *sight),
{
    let normal = or_saved_normal(sight.geometry, sight.saved);
    if let Some(normal) = normal {
        session.normal = Some(normal);
    }
    let widget = find_widget(sight, normal);
    session.widget = Some(widget);
    session.widget_mode = true;
    let mut now = apply_widget_window_flags(session);
    now.push(WindowAction::Unmaximize);
    now.push(WindowAction::WriteState(persist_window_state(session, sight.saved, normal, Some(widget), true)));
    let plan = WindowPlan { now, later: apply_geometry_delayed(widget, true) };
    assert(plan@ =~= entering(*old(session), *sight).1);
    plan
}

fn leave_widget_mode(session: &mut Session, sight: &Sight) -> (plan: WindowPlan)
    ensures
        (*final(session), plan@) == leaving(*old(session), *sight),
{
    let normal = or_saved_normal(session_normal_geometry(session), sight.saved);
    let widget = capture_widget_geometry(session, sight.geometry);
    if let Some(widget) = widget {
        session.widget = Some(widget);
    }
    session.widget_mode = false;
    let mut now = vec![
        WindowAction::WriteState(persist_window_state(session, sight.saved, normal, widget, false)),
    ];
    let mut flags = apply_widget_window_flags(session);
    now.append(&mut flags);
    let plan = match normal {
        Some(normal) => WindowPlan { now, later: apply_geometry_delayed(normal, false) },
        None => {
            let mut placing = apply_fallback_window_geometry(sight.monitor);
            now.append(&mut placing);
            WindowPlan { now, later: Vec::new() }
        },
    };
    assert(plan@ =~= leaving(*old(session), *sight).1);
    plan
}

/// Switches widget mode on or off, for the window that is seen as `sight`. Both
/// modes remember their own position and size. Gives back the mode, and what to
/// do.
pub fn set_widget_mode(session: &mut Session, sight: Option<Sight>, enabled: bool) -> (done: Result<
    (bool, WindowPlan),
    String,
>)
    requires
        sight is Some ==> can_switch(*old(session), sight->0, enabled),
    ensures
        match sight {
            Some(sight) => {
                &&& done is Ok
                &&& done->Ok_0.0 == enabled
                &&& (*final(session), done->Ok_0.1@) == switching(*old(session), sight, enabled)
            },
            None => {
                &&& done is Err
                &&& done->Err_0@ == "main window not found"@
                &&& *final(session) == *old(session)
            },
        },
{
    let sight = match sight {
        Some(sight) => sight,
        None => return Err("main window not found".to_owned()),
    };
    if enabled == get_widget_mode(session) {
        let plan = WindowPlan { now: Vec::new(), later: Vec::new() };
        assert(plan@ =~= switching(*old(session), sight, enabled).1);
        return Ok((enabled, plan));
    }
    let plan = if enabled {
        enter_widget_mode(session, &sight)
    } else {
        leave_widget_mode(session, &sight)
    };
    Ok((enabled, plan))
}

/// Tells whether `set_widget_mode` can be computed in 32 bits.
pub fn set_widget_mode_fits(session: &Session, sight: &Sight, enabled: bool) -> (fits: bool)
    ensures
        fits == can_switch(*session, *sight, enabled),
{
    if enabled && !session.widget_mode {
        can_find_widget(sight, or_saved_normal(sight.geometry, sight.saved))
    } else {
        true
    }
}

/// Pinning the window: what is done. Both geometries stay as they were kept.
pub open spec fn pinning(session: Session, saved: Option<WindowState>, enabled: bool) -> Seq<WindowAction> {
    pin_actions(enabled).push(
        WindowAction::WriteState(persisted(saved, enabled, None, None, session.widget_mode)),
    )
}

/// Pins the window above all others, or releases it, in either mode. `saved` is
/// what was kept of the window on disk; `found` tells whether there is a
/// window. Gives back the pin, and what to do.
pub fn set_always_on_top(
    session: &mut Session,
    found: bool,
    saved: Option<WindowState>,
    enabled: bool,
) -> (done: Result<(bool, WindowPlan), String>)
    ensures
        if found {
            &&& done is Ok
            &&& done->Ok_0.0 == enabled
            &&& done->Ok_0.1@ == (Plan { now: pinning(*old(session), saved, enabled), later: seq![] })
            &&& *final(session) == (Session { always_on_top: enabled, ..*old(session) })
        } else {
            &&& done is Err
            &&& done->Err_0@ == "main window not found"@
            &&& *final(session) == *old(session)
        },
{
    if !found {
        return Err("main window not found".to_owned());
    }
    let mut now = apply_always_on_top(session, enabled);
    now.push(
        WindowAction::WriteState(persist_window_state(session, saved, None, None, get_widget_mode(session))),
    );
    let plan = WindowPlan { now, later: Vec::new() };
    assert(plan@ =~= (Plan { now: pinning(*old(session), saved, enabled), later: seq![] }));
    Ok((enabled, plan))
}

} // verus!
