//! What holds of the window from one decision to the next.
use vstd::prelude::*;

use crate::action_laws::{gives, gives_later, is_shown_widget, keeps_in_reach, pins};
use crate::geometry::{default_widget, WindowGeometry, WindowState};
use crate::window::{
    captured, closing_state, delayed_actions, first_of, flag_actions, geometry_actions, new_session, or_fallback,
    persisted, pin_actions, pinning, saved_normal, saved_widget, start_actions, starting, switching, widget_of, Plan,
    Session, Sight, WindowAction,
};

verus! {

/// A geometry that can be kept for widget mode: it has a width and a height.
pub open spec fn has_size(geometry: WindowGeometry) -> bool {
    geometry.width > 0 && geometry.height > 0
}

/// What a plan keeps on disk is `state`, and nothing else.
pub open spec fn keeps(actions: Seq<WindowAction>, state: WindowState) -> bool {
    &&& actions.contains(WindowAction::WriteState(state))
    &&& forall|i: int|
        0 <= i < actions.len() && (#[trigger] actions[i]) is WriteState ==> actions[i]
            == WindowAction::WriteState(state)
}

/// What is given in the background is a geometry, after a pause.
proof fn lemma_delayed(geometry: WindowGeometry, size_first: bool)
    ensures
        gives_later(delayed_actions(geometry, size_first), geometry, size_first),
{
    assert(delayed_actions(geometry, size_first).skip(1) =~= geometry_actions(geometry, size_first));
}

/// What a start consists of.
proof fn lemma_started(pinned: bool, geometry: WindowGeometry)
    ensures
        ({
            let actions = pin_actions(pinned) + flag_actions(pinned) + geometry_actions(geometry, true);
            &&& pins(actions.take(2), pinned)
            &&& keeps_in_reach(actions.subrange(2, 6), pinned)
            &&& gives(actions.skip(6), geometry, true)
            &&& pins_last(actions, pinned)
        }),
{
    let actions = pin_actions(pinned) + flag_actions(pinned) + geometry_actions(geometry, true);
    let pin = actions.take(2);
    assert(pin[0] == WindowAction::SetAlwaysOnTop(pinned));
    assert(pin[1] == WindowAction::SetAlwaysOnBottom(false));
    let flags = actions.subrange(2, 6);
    assert(flags[0] == WindowAction::SetMinimizable(true));
    assert(flags[1] == WindowAction::SetSkipTaskbar(false));
    assert(flags[2] == WindowAction::SetAlwaysOnBottom(false));
    assert(flags[3] == WindowAction::SetAlwaysOnTop(pinned));
    assert(actions.skip(6) =~= geometry_actions(geometry, true));
    assert(actions[5] == WindowAction::SetAlwaysOnTop(pinned));
    assert forall|j: int| 5 < j < actions.len() implies !((#[trigger] actions[j]) is SetAlwaysOnTop) by {}
}

/// The two geometries are kept apart: each is given back as it was set, and
/// setting one leaves the other, the mode and the pin as they were.
pub proof fn law_geometries_are_kept_apart(state: WindowState, geometry: WindowGeometry)
    ensures
        state.with_normal(geometry).normal() == geometry,
        state.with_normal(geometry).widget() == state.widget(),
        state.with_normal(geometry).widget_mode == state.widget_mode,
        state.with_normal(geometry).always_on_top == state.always_on_top,
        state.with_widget(geometry).normal() == state.normal(),
        state.with_widget(geometry).widget() == (if has_size(geometry) {
            Some(geometry)
        } else {
            None
        }),
        state.with_widget(geometry).widget_mode == state.widget_mode,
        state.with_widget(geometry).always_on_top == state.always_on_top,
{
}

/// What is kept on disk is what was given, and where nothing was given, what
/// counted as kept before.
pub proof fn law_what_is_not_given_stays(
    saved: Option<WindowState>,
    always_on_top: bool,
    normal: Option<WindowGeometry>,
    widget: Option<WindowGeometry>,
    widget_mode: bool,
)
    ensures
        ({
            let state = persisted(saved, always_on_top, normal, widget, widget_mode);
            &&& Some(state.normal()) == first_of(normal, Some(or_fallback(saved).normal()))
            &&& widget is None ==> state.widget() == saved_widget(saved)
            &&& widget is Some && has_size(widget->0) ==> state.widget() == widget
            &&& state.widget_mode == widget_mode
            &&& state.always_on_top == always_on_top
        }),
{
}

/// Switching to widget mode and back puts the window where it was. Whatever the
/// window shows and the disk holds by then, it takes up again the geometry that
/// it had before, and that geometry is kept on disk on both ways.
pub proof fn law_normal_geometry_comes_back(
    session: Session,
    there: Sight,
    back: Sight,
    geometry: WindowGeometry,
)
    requires
        !session.widget_mode,
        there.geometry == Some(geometry),
    ensures
        ({
            let (as_widget, first) = switching(session, there, true);
            let (at_last, second) = switching(as_widget, back, false);
            &&& as_widget.widget_mode
            &&& !at_last.widget_mode
            &&& second.later == delayed_actions(geometry, false)
            &&& gives_later(second.later, geometry, false)
            &&& exists|state: WindowState| #[trigger] keeps(first.now, state) && state.normal() == geometry
            &&& exists|state: WindowState| #[trigger] keeps(second.now, state) && state.normal() == geometry
        }),
{
    lemma_delayed(geometry, false);
    let (as_widget, first) = switching(session, there, true);
    let (at_last, second) = switching(as_widget, back, false);
    let widget = widget_of(there, Some(geometry));
    let entered = persisted(there.saved, session.always_on_top, Some(geometry), Some(widget), true);
    assert(first.now[5] == WindowAction::WriteState(entered));
    assert(keeps(first.now, entered));
    let left = persisted(
        back.saved,
        session.always_on_top,
        Some(geometry),
        captured(as_widget, back.geometry),
        false,
    );
    assert(second.now[0] == WindowAction::WriteState(left));
    assert(keeps(second.now, left));
}

/// Leaving widget mode and entering it again puts the widget where it was, if
/// its geometry, which is kept on disk on leaving, is still there; closing in
/// between leaves it there. The widget needs a size.
pub proof fn law_widget_geometry_comes_back(
    session: Session,
    there: Sight,
    back: Sight,
    geometry: WindowGeometry,
)
    requires
        session.widget_mode,
        is_shown_widget(session, there.geometry, Some(geometry)),
        has_size(geometry),
        saved_widget(back.saved) == Some(geometry),
    ensures
        ({
            let (as_normal, first) = switching(session, there, false);
            let (at_last, second) = switching(as_normal, back, true);
            &&& exists|state: WindowState| #[trigger] keeps(first.now, state) && state.widget() == Some(geometry)
            &&& forall|last: Sight| (#[trigger] closing_state(as_normal, last)).widget() == saved_widget(last.saved)
            &&& at_last.widget_mode
            &&& at_last.widget == Some(geometry)
            &&& second.later == delayed_actions(geometry, true)
            &&& gives_later(second.later, geometry, true)
        }),
{
    lemma_delayed(geometry, true);
    let now = switching(session, there, false).1.now;
    let left = persisted(
        there.saved,
        session.always_on_top,
        first_of(session.normal, saved_normal(there.saved)),
        Some(geometry),
        false,
    );
    assert(now[0] == WindowAction::WriteState(left));
    assert(keeps(now, left));
}

/// Closing in normal mode and starting again puts the window where it was: in
/// the same mode, with the same pin and the same geometry. The geometry of the
/// widget stays as it was kept.
pub proof fn law_normal_window_comes_back_after_a_restart(
    session: Session,
    last: Sight,
    again: Sight,
    geometry: WindowGeometry,
)
    requires
        !session.widget_mode,
        last.geometry == Some(geometry),
        again.saved == Some(closing_state(session, last)),
    ensures
        !again.saved->0.widget_mode,
        again.saved->0.always_on_top == session.always_on_top,
        saved_widget(again.saved) == saved_widget(last.saved),
        start_actions(again) == pin_actions(session.always_on_top) + flag_actions(session.always_on_top)
            + geometry_actions(geometry, true),
        pins(start_actions(again).take(2), session.always_on_top),
        keeps_in_reach(start_actions(again).subrange(2, 6), session.always_on_top),
        gives(start_actions(again).skip(6), geometry, true),
{
    lemma_started(session.always_on_top, geometry);
}

/// Closing in widget mode and starting again puts the widget where it was: in
/// the same mode, with the same pin and the same geometry, if it has a size. The
/// normal geometry that was remembered is kept.
pub proof fn law_widget_comes_back_after_a_restart(
    session: Session,
    last: Sight,
    again: Sight,
    geometry: WindowGeometry,
)
    requires
        session.widget_mode,
        is_shown_widget(session, last.geometry, Some(geometry)),
        has_size(geometry),
        again.saved == Some(closing_state(session, last)),
    ensures
        again.saved->0.widget_mode,
        again.saved->0.always_on_top == session.always_on_top,
        session.normal is Some ==> saved_normal(again.saved) == session.normal,
        session.normal is None && last.saved is Some ==> saved_normal(again.saved) == saved_normal(last.saved),
        start_actions(again) == pin_actions(session.always_on_top) + flag_actions(session.always_on_top)
            + geometry_actions(geometry, true),
        pins(start_actions(again).take(2), session.always_on_top),
        keeps_in_reach(start_actions(again).subrange(2, 6), session.always_on_top),
        gives(start_actions(again).skip(6), geometry, true),
{
    lemma_started(session.always_on_top, geometry);
}

/// Asking for the mode that the window is in does nothing, and so does asking
/// twice: the second time nothing is left to do.
pub proof fn law_switching_twice_is_switching_once(session: Session, sight: Sight, later: Sight, enabled: bool)
    ensures
        ({
            let once = switching(session, sight, enabled).0;
            &&& once.widget_mode == enabled
            &&& switching(once, later, enabled) == (once, Plan { now: seq![], later: seq![] })
        }),
{
}

/// Switching the mode leaves the pin as it is, and what it keeps on disk agrees
/// with what is remembered from then on.
pub proof fn law_switching_keeps_the_pin(session: Session, sight: Sight, enabled: bool)
    requires
        enabled != session.widget_mode,
    ensures
        ({
            let (after, plan) = switching(session, sight, enabled);
            &&& after.always_on_top == session.always_on_top
            &&& exists|state: WindowState|
                {
                    &&& #[trigger] keeps(plan.now, state)
                    &&& state.widget_mode == after.widget_mode
                    &&& state.always_on_top == after.always_on_top
                }
        }),
{
    let (after, plan) = switching(session, sight, enabled);
    if enabled {
        let normal = first_of(sight.geometry, saved_normal(sight.saved));
        let state = persisted(
            sight.saved,
            session.always_on_top,
            normal,
            Some(widget_of(sight, normal)),
            true,
        );
        assert(plan.now[5] == WindowAction::WriteState(state));
        assert(keeps(plan.now, state));
    } else {
        let state = persisted(
            sight.saved,
            session.always_on_top,
            first_of(session.normal, saved_normal(sight.saved)),
            captured(session, sight.geometry),
            false,
        );
        assert(plan.now[0] == WindowAction::WriteState(state));
        assert(keeps(plan.now, state));
    }
}

/// Pinning is independent of the mode: it keeps the pin on disk and leaves the
/// mode and both geometries as they are, and the next start pins the window
/// again.
pub proof fn law_pinning_changes_nothing_else(
    session: Session,
    saved: Option<WindowState>,
    enabled: bool,
    again: Sight,
    state: WindowState,
)
    requires
        keeps(pinning(session, saved, enabled), state),
        again.saved == Some(state),
    ensures
        state.always_on_top == enabled,
        state.widget_mode == session.widget_mode,
        state.normal() == or_fallback(saved).normal(),
        state.widget() == saved_widget(saved),
        start_actions(again).take(2) == pin_actions(enabled),
        pins_last(pinning(session, saved, enabled), enabled),
        pins_last(start_actions(again), enabled),
{
    let actions = pinning(session, saved, enabled);
    lemma_started(enabled, if state.widget_mode {
        widget_of(again, Some(state.normal()))
    } else {
        state.normal()
    });
    assert(actions[0] == WindowAction::SetAlwaysOnTop(enabled));
    assert(actions[2] == WindowAction::WriteState(persisted(saved, enabled, None, None, session.widget_mode)));
    assert(start_actions(again).take(2) =~= pin_actions(enabled));
}

/// A window that has not settled is not mistaken for the widget: closed or
/// switched back while it still shows its normal geometry, the widget keeps the
/// geometry that it was to take up.
pub proof fn law_unsettled_widget_is_not_lost(session: Session, there: Sight, geometry: WindowGeometry)
    requires
        !session.widget_mode,
        there.geometry == Some(geometry),
        has_size(widget_of(there, Some(geometry))),
    ensures
        ({
            let as_widget = switching(session, there, true).0;
            let widget = widget_of(there, Some(geometry));
            &&& captured(as_widget, Some(geometry)) == Some(widget)
            &&& forall|soon: Sight|
                soon.geometry == Some(geometry) ==> (#[trigger] closing_state(as_widget, soon)).widget() == Some(
                    widget,
                )
        }),
{
}

/// The first geometry of the widget is found once: it has a size, so it is kept
/// on disk and taken up from there the next time.
pub proof fn law_first_widget_geometry_is_kept(session: Session, sight: Sight)
    requires
        !session.widget_mode,
        saved_widget(sight.saved) is None,
    ensures
        ({
            let normal = first_of(sight.geometry, saved_normal(sight.saved));
            let widget = default_widget(sight.widget_width, sight.widget_height, normal, sight.monitor);
            let (after, plan) = switching(session, sight, true);
            &&& has_size(widget)
            &&& after.widget == Some(widget)
            &&& exists|state: WindowState| #[trigger] keeps(plan.now, state) && state.widget() == Some(widget)
        }),
{
    let normal = first_of(sight.geometry, saved_normal(sight.saved));
    let widget = default_widget(sight.widget_width, sight.widget_height, normal, sight.monitor);
    let plan = switching(session, sight, true).1;
    let state = persisted(sight.saved, session.always_on_top, normal, Some(widget), true);
    assert(plan.now[5] == WindowAction::WriteState(state));
    assert(keeps(plan.now, state));
}

/// Something that happens to the window. `sight` is what is seen of it then, but
/// for what is kept on disk; `kept` tells whether what is to be kept can be
/// written (else its file stays as it was).
pub enum Happening {
    /// The application starts.
    Start { sight: Sight },
    /// The user switches the mode.
    Switch { sight: Sight, enabled: bool, kept: bool },
    /// The user pins the window or releases it.
    Pin { enabled: bool, kept: bool },
    /// The window closes.
    Close { sight: Sight, kept: bool },
}

/// What is remembered of the window, and what is kept of it on disk.
pub struct Life {
    pub session: Session,
    pub disk: Option<WindowState>,
}

/// What is seen of the window, with what is kept of it on disk.
pub open spec fn seen(sight: Sight, disk: Option<WindowState>) -> Sight {
    Sight { saved: disk, ..sight }
}

/// What is kept on disk after these actions.
pub open spec fn kept_after(disk: Option<WindowState>, actions: Seq<WindowAction>) -> Option<WindowState>
    decreases actions.len(),
{
    if actions.len() == 0 {
        disk
    } else {
        match actions.last() {
            WindowAction::WriteState(state) => Some(state),
            _ => kept_after(disk, actions.drop_last()),
        }
    }
}

/// The window after something has happened to it.
pub open spec fn lived(life: Life, happening: Happening) -> Life {
    match happening {
        Happening::Start { sight } => Life {
            session: starting(new_session(), seen(sight, life.disk)),
            disk: life.disk,
        },
        Happening::Switch { sight, enabled, kept } => {
            let (session, plan) = switching(life.session, seen(sight, life.disk), enabled);
            Life {
                session,
                disk: if kept {
                    kept_after(life.disk, plan.now + plan.later)
                } else {
                    life.disk
                },
            }
        },
        Happening::Pin { enabled, kept } => Life {
            session: Session { always_on_top: enabled, ..life.session },
            disk: if kept {
                kept_after(life.disk, pinning(life.session, life.disk, enabled))
            } else {
                life.disk
            },
        },
        Happening::Close { sight, kept } => Life {
            session: life.session,
            disk: if kept {
                Some(closing_state(life.session, seen(sight, life.disk)))
            } else {
                life.disk
            },
        },
    }
}

/// The window after all this has happened to it.
pub open spec fn lives(life: Life, happenings: Seq<Happening>) -> Life
    decreases happenings.len(),
{
    if happenings.len() == 0 {
        life
    } else {
        lived(lives(life, happenings.drop_last()), happenings.last())
    }
}

/// Where only one state is kept, that is what is on disk.
proof fn lemma_kept_after(disk: Option<WindowState>, actions: Seq<WindowAction>, state: WindowState)
    requires
        keeps(actions, state),
    ensures
        kept_after(disk, actions) == Some(state),
    decreases actions.len(),
{
    assert(actions.len() > 0);
    let last = actions.len() - 1;
    if !(actions[last] is WriteState) {
        let fewer = actions.drop_last();
        let i = choose|i: int| 0 <= i < actions.len() && actions[i] == WindowAction::WriteState(state);
        assert(fewer[i] == actions[i]);
        assert forall|j: int| 0 <= j < fewer.len() && (#[trigger] fewer[j]) is WriteState implies fewer[j]
            == WindowAction::WriteState(state) by {
            assert(fewer[j] == actions[j]);
        }
        lemma_kept_after(disk, fewer, state);
    }
}

/// What switching the mode keeps on disk.
proof fn lemma_switch_keeps(life: Life, sight: Sight, enabled: bool)
    requires
        enabled != life.session.widget_mode,
    ensures
        ({
            let session = life.session;
            let saved = life.disk;
            let normal = if enabled {
                first_of(sight.geometry, saved_normal(saved))
            } else {
                first_of(session.normal, saved_normal(saved))
            };
            let widget = if enabled {
                Some(widget_of(seen(sight, saved), normal))
            } else {
                captured(session, sight.geometry)
            };
            lived(life, Happening::Switch { sight, enabled, kept: true }).disk == Some(
                persisted(saved, session.always_on_top, normal, widget, enabled),
            )
        }),
{
    let session = life.session;
    let saved = life.disk;
    let plan = switching(session, seen(sight, saved), enabled).1;
    let actions = plan.now + plan.later;
    if enabled {
        let normal = first_of(sight.geometry, saved_normal(saved));
        let widget = widget_of(seen(sight, saved), normal);
        let state = persisted(saved, session.always_on_top, normal, Some(widget), true);
        assert(actions[5] == WindowAction::WriteState(state));
        lemma_kept_after(saved, actions, state);
    } else {
        let normal = first_of(session.normal, saved_normal(saved));
        let state = persisted(saved, session.always_on_top, normal, captured(session, sight.geometry), false);
        assert(actions[0] == WindowAction::WriteState(state));
        lemma_kept_after(saved, actions, state);
    }
}

/// What pinning keeps on disk.
proof fn lemma_pin_keeps(life: Life, enabled: bool)
    ensures
        lived(life, Happening::Pin { enabled, kept: true }).disk == Some(
            persisted(life.disk, enabled, None, None, life.session.widget_mode),
        ),
{
}

/// The last of these actions that puts the window above the others, or back
/// among them, does so as `enabled` says.
pub open spec fn pins_last(actions: Seq<WindowAction>, enabled: bool) -> bool {
    exists|i: int|
        {
            &&& 0 <= i < actions.len()
            &&& #[trigger] actions[i] == WindowAction::SetAlwaysOnTop(enabled)
            &&& forall|j: int| i < j < actions.len() ==> !((#[trigger] actions[j]) is SetAlwaysOnTop)
        }
}

/// A pin lasts, in either mode: once it is kept on disk, and whatever happens
/// then but for another pin (switches, closings and starts, in any order, whether
/// or not what they keep can be written), it is remembered and kept on disk, and
/// with the next start it is what the window is given last.
pub proof fn law_pin_lasts(life: Life, enabled: bool, happenings: Seq<Happening>, sight: Sight)
    requires
        forall|i: int| 0 <= i < happenings.len() ==> !((#[trigger] happenings[i]) is Pin),
    ensures
        ({
            let pinned = lived(life, Happening::Pin { enabled, kept: true });
            let now = lives(pinned, happenings);
            &&& now.session.always_on_top == enabled
            &&& now.disk is Some
            &&& now.disk->0.always_on_top == enabled
            &&& lived(now, Happening::Start { sight }).session.always_on_top == enabled
            &&& pins_last(start_actions(seen(sight, now.disk)), enabled)
        }),
    decreases happenings.len(),
{
    let pinned = lived(life, Happening::Pin { enabled, kept: true });
    lemma_pin_keeps(life, enabled);
    if happenings.len() > 0 {
        let fewer = happenings.drop_last();
        assert forall|i: int| 0 <= i < fewer.len() implies !((#[trigger] fewer[i]) is Pin) by {
            assert(fewer[i] == happenings[i]);
        }
        law_pin_lasts(life, enabled, fewer, sight);
        let before = lives(pinned, fewer);
        let last = happenings.last();
        assert(last == happenings[happenings.len() - 1]);
        if let Happening::Switch { sight: around, enabled: on, kept } = last {
            if on != before.session.widget_mode && kept {
                lemma_switch_keeps(before, around, on);
            }
        }
    }
    let now = lives(pinned, happenings);
    let state = now.disk->0;
    lemma_started(enabled, if state.widget_mode {
        widget_of(seen(sight, now.disk), Some(state.normal()))
    } else {
        state.normal()
    });
}

/// The widget's geometry lasts: once widget mode is left, and whatever happens
/// then but for entering it again (closings and starts, pins, in any order,
/// whether or not what they keep can be written), it stays on disk and the
/// widget takes it up again. The widget needs a size.
pub proof fn law_widget_geometry_lasts(
    life: Life,
    there: Sight,
    geometry: WindowGeometry,
    happenings: Seq<Happening>,
    back: Sight,
)
    requires
        life.session.widget_mode,
        is_shown_widget(life.session, there.geometry, Some(geometry)),
        has_size(geometry),
        forall|i: int|
            0 <= i < happenings.len() ==> ((#[trigger] happenings[i]) matches Happening::Switch { enabled, .. }
                ==> !enabled),
    ensures
        ({
            let left = lived(life, Happening::Switch { sight: there, enabled: false, kept: true });
            let now = lives(left, happenings);
            let (session, plan) = switching(now.session, seen(back, now.disk), true);
            &&& !now.session.widget_mode
            &&& now.disk is Some && !now.disk->0.widget_mode
            &&& saved_widget(now.disk) == Some(geometry)
            &&& session.widget == Some(geometry)
            &&& plan.later == delayed_actions(geometry, true)
            &&& gives_later(plan.later, geometry, true)
        }),
    decreases happenings.len(),
{
    lemma_delayed(geometry, true);
    let left = lived(life, Happening::Switch { sight: there, enabled: false, kept: true });
    lemma_switch_keeps(life, there, false);
    if happenings.len() > 0 {
        let fewer = happenings.drop_last();
        assert forall|i: int| 0 <= i < fewer.len() implies ((#[trigger] fewer[i]) matches Happening::Switch {
            enabled,
            ..
        } ==> !enabled) by {
            assert(fewer[i] == happenings[i]);
        }
        law_widget_geometry_lasts(life, there, geometry, fewer, back);
        let before = lives(left, fewer);
        let last = happenings.last();
        assert(last == happenings[happenings.len() - 1]);
        match last {
            Happening::Pin { enabled, .. } => lemma_pin_keeps(before, enabled),
            _ => {},
        }
    }
}

/// The normal geometry lasts: once widget mode is entered, and whatever happens
/// then but for leaving it again (closings and starts, pins, in any order,
/// whether or not what they keep can be written), it stays on disk and the window
/// takes it up again.
pub proof fn law_normal_geometry_lasts(
    life: Life,
    there: Sight,
    geometry: WindowGeometry,
    happenings: Seq<Happening>,
    back: Sight,
)
    requires
        !life.session.widget_mode,
        there.geometry == Some(geometry),
        forall|i: int|
            0 <= i < happenings.len() ==> ((#[trigger] happenings[i]) matches Happening::Switch { enabled, .. }
                ==> enabled),
    ensures
        ({
            let entered = lived(life, Happening::Switch { sight: there, enabled: true, kept: true });
            let now = lives(entered, happenings);
            let (session, plan) = switching(now.session, seen(back, now.disk), false);
            &&& now.session.widget_mode
            &&& now.disk is Some && now.disk->0.widget_mode
            &&& now.session.normal is None || now.session.normal == Some(geometry)
            &&& saved_normal(now.disk) == Some(geometry)
            &&& plan.later == delayed_actions(geometry, false)
            &&& gives_later(plan.later, geometry, false)
        }),
    decreases happenings.len(),
{
    lemma_delayed(geometry, false);
    let entered = lived(life, Happening::Switch { sight: there, enabled: true, kept: true });
    lemma_switch_keeps(life, there, true);
    if happenings.len() > 0 {
        let fewer = happenings.drop_last();
        assert forall|i: int| 0 <= i < fewer.len() implies ((#[trigger] fewer[i]) matches Happening::Switch {
            enabled,
            ..
        } ==> enabled) by {
            assert(fewer[i] == happenings[i]);
        }
        law_normal_geometry_lasts(life, there, geometry, fewer, back);
        let before = lives(entered, fewer);
        let last = happenings.last();
        assert(last == happenings[happenings.len() - 1]);
        match last {
            Happening::Pin { enabled, .. } => lemma_pin_keeps(before, enabled),
            _ => {},
        }
    }
}

} // verus!
