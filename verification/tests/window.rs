use kanban_desktop::geometry::{
    current_window_geometry, default_widget_geometry, default_widget_geometry_fits,
    fallback_window_state, Monitor, WindowGeometry, WindowState,
};
use kanban_desktop::window::{
    apply_fallback_window_geometry, apply_geometry, apply_geometry_delayed, apply_geometry_in_order,
    apply_initial_window_state, apply_initial_window_state_fits, apply_widget_window_flags,
    capture_widget_geometry, get_always_on_top, get_widget_mode, persist_window_state,
    save_window_state, session_normal_geometry, session_widget_geometry, set_always_on_top,
    set_widget_mode, set_widget_mode_fits, Session, Sight, WindowAction, WindowPlan,
};

const NORMAL: WindowGeometry =
    WindowGeometry { width: 1000, height: 700, x: 40, y: -30, maximized: false };
const WIDGET: WindowGeometry =
    WindowGeometry { width: 380, height: 680, x: 5, y: 6, maximized: false };
const FULL: WindowGeometry =
    WindowGeometry { width: 1920, height: 1080, x: 0, y: 0, maximized: true };
const SCREEN: Monitor = Monitor { x: 100, y: 50, width: 1920, height: 1080 };

fn sight(geometry: Option<WindowGeometry>, saved: Option<WindowState>) -> Sight {
    Sight { geometry, saved, widget_width: 380, widget_height: 680, monitor: Some(SCREEN) }
}

fn kept(normal: WindowGeometry, widget: Option<WindowGeometry>) -> WindowState {
    let mut state = fallback_window_state();
    state.set_normal_geometry(normal);
    if let Some(widget) = widget {
        state.set_widget_geometry(widget);
    }
    state
}

fn written(plan: &WindowPlan) -> WindowState {
    for action in &plan.now {
        if let WindowAction::WriteState(state) = action {
            return *state;
        }
    }
    panic!("nothing was kept")
}

fn flags(on_top: bool) -> Vec<WindowAction> {
    vec![
        WindowAction::SetMinimizable(true),
        WindowAction::SetSkipTaskbar(false),
        WindowAction::SetAlwaysOnBottom(false),
        WindowAction::SetAlwaysOnTop(on_top),
    ]
}

fn size(geometry: WindowGeometry) -> WindowAction {
    WindowAction::SetSize { width: geometry.width, height: geometry.height }
}

fn position(geometry: WindowGeometry) -> WindowAction {
    WindowAction::SetPosition { x: geometry.x, y: geometry.y }
}

#[test]
fn nothing_kept_counts_as_a_small_window_in_the_corner() {
    let state = fallback_window_state();
    assert_eq!(
        state.normal_geometry(),
        WindowGeometry { width: 800, height: 600, x: 0, y: 0, maximized: false }
    );
    assert_eq!(state.widget_geometry(), None);
    assert!(!state.widget_mode && !state.always_on_top);
}

#[test]
fn the_two_geometries_are_kept_apart() {
    let state = kept(NORMAL, Some(WIDGET));
    assert_eq!(state.normal_geometry(), NORMAL);
    assert_eq!(state.widget_geometry(), Some(WIDGET));
    assert_eq!(kept(NORMAL, None).widget_geometry(), None);
    let flat = WindowGeometry { height: 0, ..WIDGET };
    assert_eq!(kept(NORMAL, Some(flat)).widget_geometry(), None);
    let thin = WindowGeometry { width: 0, ..WIDGET };
    assert_eq!(kept(NORMAL, Some(thin)).widget_geometry(), None);
}

#[test]
fn a_window_tells_its_geometry() {
    assert_eq!(
        current_window_geometry(Some((1000, 700)), Some((40, -30)), Some(false)),
        Some(NORMAL)
    );
    assert_eq!(
        current_window_geometry(Some((1000, 700)), Some((40, -30)), None),
        Some(NORMAL)
    );
    assert_eq!(current_window_geometry(Some((1920, 1080)), Some((0, 0)), Some(true)), Some(FULL));
    assert_eq!(current_window_geometry(None, Some((0, 0)), Some(true)), None);
    assert_eq!(current_window_geometry(Some((1, 1)), None, Some(true)), None);
}

#[test]
fn a_new_widget_stands_where_the_window_is() {
    assert_eq!(
        default_widget_geometry(380, 680, Some(NORMAL), Some(SCREEN)),
        WindowGeometry { width: 380, height: 680, x: 40, y: -30, maximized: false }
    );
}

#[test]
fn or_in_the_middle_of_the_screen() {
    let middle = WindowGeometry { width: 380, height: 680, x: 870, y: 250, maximized: false };
    assert_eq!(default_widget_geometry(380, 680, None, Some(SCREEN)), middle);
    assert_eq!(default_widget_geometry(380, 680, Some(FULL), Some(SCREEN)), middle);
    let small = Monitor { x: 0, y: 0, width: 101, height: 99 };
    let over = default_widget_geometry(200, 100, None, Some(small));
    assert_eq!((over.x, over.y), (-49, 0));
}

#[test]
fn or_in_the_corner_and_is_never_invisible() {
    assert_eq!(
        default_widget_geometry(0, 0, Some(FULL), None),
        WindowGeometry { width: 1, height: 1, x: 0, y: 0, maximized: false }
    );
}

#[test]
fn a_screen_of_more_than_half_the_numbers_counts_as_negative() {
    let wide = Monitor { x: 0, y: 0, width: u32::MAX, height: 11 };
    assert!(default_widget_geometry_fits(10, 1, None, Some(wide)));
    let geometry = default_widget_geometry(10, 1, None, Some(wide));
    assert_eq!((geometry.x, geometry.y), (-5, 5));
    let huge = Monitor { x: 0, y: 0, width: 0x8000_0000, height: 11 };
    assert!(!default_widget_geometry_fits(10, 1, None, Some(huge)));
    let far = Monitor { x: i32::MAX, y: 0, width: 100, height: 11 };
    assert!(!default_widget_geometry_fits(10, 1, None, Some(far)));
    assert!(default_widget_geometry_fits(10, 1, Some(NORMAL), Some(far)));
    assert!(default_widget_geometry_fits(10, 1, None, None));
}

#[test]
fn a_geometry_is_given_in_the_order_that_is_asked_for() {
    let pause = WindowAction::Pause { millis: 100 };
    assert_eq!(apply_geometry(NORMAL), vec![size(NORMAL), pause, position(NORMAL)]);
    assert_eq!(
        apply_geometry_in_order(NORMAL, false),
        vec![position(NORMAL), pause, size(NORMAL)]
    );
    assert_eq!(apply_geometry_in_order(FULL, false), vec![WindowAction::Maximize]);
    assert_eq!(
        apply_geometry_delayed(NORMAL, false),
        vec![WindowAction::Pause { millis: 500 }, position(NORMAL), pause, size(NORMAL)]
    );
    assert_eq!(
        apply_geometry_delayed(FULL, true),
        vec![WindowAction::Pause { millis: 500 }, WindowAction::Maximize]
    );
}

#[test]
fn a_window_without_a_place_takes_four_fifths_of_the_screen() {
    assert_eq!(
        apply_fallback_window_geometry(Some(SCREEN)),
        vec![WindowAction::SetSize { width: 1536, height: 864 }, WindowAction::Center]
    );
    assert_eq!(apply_fallback_window_geometry(None), vec![]);
}

#[test]
fn four_fifths_agree_with_the_product_by_eight_tenths() {
    let check = |width: u32, height: u32| {
        let actions = apply_fallback_window_geometry(Some(Monitor { x: 0, y: 0, width, height }));
        let expected = WindowAction::SetSize {
            width: (width as f64 * 0.8) as u32,
            height: (height as f64 * 0.8) as u32,
        };
        assert_eq!(actions[0], expected);
    };
    for n in 0..20_000u32 {
        check(n, u32::MAX - n);
    }
    let mut n: u32 = 1;
    for _ in 0..100_000 {
        n = n.wrapping_mul(1_664_525).wrapping_add(1_013_904_223);
        check(n, n / 5 * 5);
    }
}

#[test]
fn only_what_is_given_is_kept_anew() {
    let session = Session { always_on_top: true, ..Session::new() };
    let before = kept(NORMAL, Some(WIDGET));
    let state = persist_window_state(&session, Some(before), None, None, true);
    assert_eq!(state, WindowState { widget_mode: true, always_on_top: true, ..before });
    let state = persist_window_state(&session, Some(before), Some(FULL), None, false);
    assert_eq!(state.normal_geometry(), FULL);
    assert_eq!(state.widget_geometry(), Some(WIDGET));
    let state = persist_window_state(&session, None, None, Some(WIDGET), false);
    assert_eq!(state.normal_geometry(), fallback_window_state().normal_geometry());
    assert_eq!(state.widget_geometry(), Some(WIDGET));
}

#[test]
fn a_settled_widget_is_captured_from_the_screen() {
    let session = Session { normal: Some(NORMAL), widget: Some(WIDGET), ..Session::new() };
    assert_eq!(capture_widget_geometry(&session, Some(FULL)), Some(FULL));
    assert_eq!(capture_widget_geometry(&session, Some(NORMAL)), Some(WIDGET));
    assert_eq!(capture_widget_geometry(&session, None), Some(WIDGET));
    let same = Session { widget: Some(NORMAL), ..session };
    assert_eq!(capture_widget_geometry(&same, Some(NORMAL)), Some(NORMAL));
    let fresh = Session::new();
    assert_eq!(capture_widget_geometry(&fresh, Some(NORMAL)), Some(NORMAL));
    assert_eq!(capture_widget_geometry(&fresh, None), None);
}

#[test]
fn the_first_start_sizes_the_window() {
    let mut session = Session { widget_mode: true, always_on_top: true, ..Session::new() };
    let actions = apply_initial_window_state(&mut session, &sight(Some(NORMAL), None));
    assert_eq!(actions, apply_fallback_window_geometry(Some(SCREEN)));
    assert_eq!(session, Session::new());
}

#[test]
fn a_later_start_takes_up_what_was_kept() {
    let mut session = Session::new();
    let saved = WindowState { always_on_top: true, ..kept(NORMAL, Some(WIDGET)) };
    let actions = apply_initial_window_state(&mut session, &sight(None, Some(saved)));
    let mut expected =
        vec![WindowAction::SetAlwaysOnTop(true), WindowAction::SetAlwaysOnBottom(false)];
    expected.append(&mut flags(true));
    expected.append(&mut apply_geometry(NORMAL));
    assert_eq!(actions, expected);
    assert!(get_always_on_top(&session) && !get_widget_mode(&session));
    assert_eq!((session.normal, session.widget), (None, None));
}

#[test]
fn a_start_in_widget_mode_takes_up_the_widget() {
    let mut session = Session::new();
    let saved = WindowState { widget_mode: true, ..kept(NORMAL, Some(WIDGET)) };
    let actions = apply_initial_window_state(&mut session, &sight(None, Some(saved)));
    assert_eq!(actions[6..].to_vec(), apply_geometry(WIDGET));
    assert!(get_widget_mode(&session));

    let unplaced = WindowState { widget_mode: true, ..kept(FULL, None) };
    let here = sight(None, Some(unplaced));
    assert!(apply_initial_window_state_fits(&here));
    let actions = apply_initial_window_state(&mut session, &here);
    let first = default_widget_geometry(380, 680, Some(FULL), Some(SCREEN));
    assert_eq!(actions[6..].to_vec(), apply_geometry(first));
}

#[test]
fn entering_widget_mode() {
    let mut session = Session { always_on_top: true, ..Session::new() };
    let saved = kept(FULL, Some(WIDGET));
    let (enabled, plan) =
        set_widget_mode(&mut session, Some(sight(Some(NORMAL), Some(saved))), true).unwrap();
    assert!(enabled);
    let state = WindowState {
        widget_mode: true,
        always_on_top: true,
        ..kept(NORMAL, Some(WIDGET))
    };
    let mut expected = flags(true);
    expected.push(WindowAction::Unmaximize);
    expected.push(WindowAction::WriteState(state));
    assert_eq!(plan.now, expected);
    assert_eq!(plan.later, apply_geometry_delayed(WIDGET, true));
    assert_eq!(session_normal_geometry(&session), Some(NORMAL));
    assert_eq!(session_widget_geometry(&session), Some(WIDGET));
    assert!(get_widget_mode(&session));
}

#[test]
fn entering_widget_mode_with_a_silent_window() {
    let mut session = Session { normal: Some(NORMAL), ..Session::new() };
    let (_, plan) = set_widget_mode(&mut session, Some(sight(None, None)), true).unwrap();
    let widget = default_widget_geometry(380, 680, None, Some(SCREEN));
    assert_eq!(session_normal_geometry(&session), Some(NORMAL));
    assert_eq!(session_widget_geometry(&session), Some(widget));
    let state = written(&plan);
    assert_eq!(state.normal_geometry(), fallback_window_state().normal_geometry());
    assert_eq!(state.widget_geometry(), Some(widget));

    let mut session = Session::new();
    let saved = Some(kept(NORMAL, None));
    set_widget_mode(&mut session, Some(sight(None, saved)), true).unwrap();
    assert_eq!(session_normal_geometry(&session), Some(NORMAL));
}

#[test]
fn there_and_back_again() {
    let mut session = Session::new();
    let (_, plan) = set_widget_mode(&mut session, Some(sight(Some(NORMAL), None)), true).unwrap();
    let first = session_widget_geometry(&session).unwrap();
    assert_eq!((first.x, first.y), (NORMAL.x, NORMAL.y));

    let saved = Some(written(&plan));
    let (enabled, plan) =
        set_widget_mode(&mut session, Some(sight(Some(WIDGET), saved)), false).unwrap();
    assert!(!enabled);
    assert_eq!(plan.later, apply_geometry_delayed(NORMAL, false));
    let state = written(&plan);
    assert_eq!(state, kept(NORMAL, Some(WIDGET)));
    let mut expected = vec![WindowAction::WriteState(state)];
    expected.append(&mut flags(false));
    assert_eq!(plan.now, expected);

    let (_, plan) =
        set_widget_mode(&mut session, Some(sight(Some(NORMAL), Some(state))), true).unwrap();
    assert_eq!(plan.later, apply_geometry_delayed(WIDGET, true));
}

#[test]
fn leaving_widget_mode_without_a_normal_geometry() {
    let mut session = Session { widget_mode: true, ..Session::new() };
    let (_, plan) = set_widget_mode(&mut session, Some(sight(None, None)), false).unwrap();
    assert_eq!(plan.later, vec![]);
    let mut expected = vec![WindowAction::WriteState(fallback_window_state())];
    expected.append(&mut flags(false));
    expected.append(&mut apply_fallback_window_geometry(Some(SCREEN)));
    assert_eq!(plan.now, expected);
    assert_eq!(session, Session::new());

    let mut session = Session { widget_mode: true, ..Session::new() };
    let saved = Some(kept(NORMAL, None));
    let (_, plan) = set_widget_mode(&mut session, Some(sight(Some(WIDGET), saved)), false).unwrap();
    assert_eq!(plan.later, apply_geometry_delayed(NORMAL, false));
    assert_eq!(session_widget_geometry(&session), Some(WIDGET));
}

#[test]
fn switching_back_before_the_window_settles_keeps_the_widget() {
    let mut session = Session::new();
    let saved = Some(kept(NORMAL, Some(WIDGET)));
    set_widget_mode(&mut session, Some(sight(Some(NORMAL), saved)), true).unwrap();
    let (_, plan) = set_widget_mode(&mut session, Some(sight(Some(NORMAL), saved)), false).unwrap();
    assert_eq!(written(&plan).widget_geometry(), Some(WIDGET));
}

#[test]
fn the_mode_that_is_on_needs_no_switch() {
    for mode in [false, true] {
        let mut session = Session { widget_mode: mode, ..Session::new() };
        let before = session;
        let (enabled, plan) =
            set_widget_mode(&mut session, Some(sight(Some(NORMAL), None)), mode).unwrap();
        assert_eq!(enabled, mode);
        assert_eq!((plan.now, plan.later), (vec![], vec![]));
        assert_eq!(session, before);
    }
}

#[test]
fn without_a_window_nothing_can_be_switched() {
    let mut session = Session::new();
    assert_eq!(
        set_widget_mode(&mut session, None, true).map(|done| done.0),
        Err("main window not found".to_string())
    );
    assert_eq!(
        set_always_on_top(&mut session, false, None, true).map(|done| done.0),
        Err("main window not found".to_string())
    );
    assert_eq!(session, Session::new());
}

#[test]
fn a_switch_that_cannot_be_computed_is_known_before() {
    let mut far = sight(None, None);
    far.monitor = Some(Monitor { x: i32::MAX, y: 0, width: 1000, height: 1000 });
    assert!(!set_widget_mode_fits(&Session::new(), &far, true));
    assert!(set_widget_mode_fits(&Session::new(), &far, false));
    let widget = Session { widget_mode: true, ..Session::new() };
    assert!(set_widget_mode_fits(&widget, &far, true));
    far.saved = Some(kept(FULL, Some(WIDGET)));
    assert!(set_widget_mode_fits(&Session::new(), &far, true));
    far.saved = Some(WindowState { widget_mode: true, ..kept(FULL, None) });
    assert!(!apply_initial_window_state_fits(&far));
    far.saved = Some(kept(FULL, None));
    assert!(apply_initial_window_state_fits(&far));
}

#[test]
fn pinning_leaves_everything_else() {
    let mut session = Session { widget_mode: true, normal: Some(NORMAL), ..Session::new() };
    let saved = WindowState { widget_mode: true, ..kept(NORMAL, Some(WIDGET)) };
    let (enabled, plan) = set_always_on_top(&mut session, true, Some(saved), true).unwrap();
    assert!(enabled && get_always_on_top(&session) && get_widget_mode(&session));
    let state = WindowState { always_on_top: true, ..saved };
    assert_eq!(
        plan.now,
        vec![
            WindowAction::SetAlwaysOnTop(true),
            WindowAction::SetAlwaysOnBottom(false),
            WindowAction::WriteState(state),
        ]
    );
    assert_eq!(plan.later, vec![]);
    assert_eq!(apply_widget_window_flags(&session), flags(true));
    let mut next = Session::new();
    apply_initial_window_state(&mut next, &sight(None, Some(state)));
    assert!(get_always_on_top(&next));
}

#[test]
fn closing_in_normal_mode() {
    let session = Session { normal: Some(FULL), widget: Some(FULL), ..Session::new() };
    let saved = kept(FULL, Some(WIDGET));
    let state = save_window_state(&session, &sight(Some(NORMAL), Some(saved)));
    assert_eq!(state, kept(NORMAL, Some(WIDGET)));
    assert_eq!(save_window_state(&session, &sight(None, Some(saved))), saved);
    assert_eq!(save_window_state(&session, &sight(None, None)), fallback_window_state());
}

#[test]
fn closing_in_widget_mode() {
    let session = Session { widget_mode: true, normal: Some(NORMAL), ..Session::new() };
    let saved = kept(FULL, None);
    let state = save_window_state(&session, &sight(Some(WIDGET), Some(saved)));
    assert_eq!(state, WindowState { widget_mode: true, ..kept(NORMAL, Some(WIDGET)) });
    let restarted = Session { widget_mode: true, ..Session::new() };
    let state = save_window_state(&restarted, &sight(Some(WIDGET), Some(saved)));
    assert_eq!(state, WindowState { widget_mode: true, ..kept(FULL, Some(WIDGET)) });

    let mut next = Session::new();
    let actions = apply_initial_window_state(&mut next, &sight(None, Some(state)));
    assert!(get_widget_mode(&next));
    assert_eq!(actions[6..].to_vec(), apply_geometry(WIDGET));
}

/// The window over its life: what is remembered, and what is kept on disk.
struct Life {
    session: Session,
    disk: Option<WindowState>,
}

impl Life {
    fn start(&mut self) -> Vec<WindowAction> {
        self.session = Session::new();
        apply_initial_window_state(&mut self.session, &sight(None, self.disk))
    }

    fn switch(&mut self, shown: WindowGeometry, enabled: bool) -> WindowPlan {
        let around = sight(Some(shown), self.disk);
        let (_, plan) = set_widget_mode(&mut self.session, Some(around), enabled).unwrap();
        self.disk = Some(written(&plan));
        plan
    }

    fn pin(&mut self, enabled: bool) {
        let (_, plan) = set_always_on_top(&mut self.session, true, self.disk, enabled).unwrap();
        self.disk = Some(written(&plan));
    }

    fn close(&mut self, shown: WindowGeometry) {
        self.disk = Some(save_window_state(&self.session, &sight(Some(shown), self.disk)));
    }
}

fn last_pin(actions: &[WindowAction]) -> Option<bool> {
    actions.iter().rev().find_map(|action| match action {
        WindowAction::SetAlwaysOnTop(yes) => Some(*yes),
        _ => None,
    })
}

#[test]
fn a_pin_lasts() {
    for pin in [false, true] {
        let mut life = Life { session: Session::new(), disk: None };
        life.pin(!pin);
        life.pin(pin);
        life.switch(NORMAL, true);
        life.close(WIDGET);
        let actions = life.start();
        assert_eq!(last_pin(&actions), Some(pin));
        assert_eq!(get_always_on_top(&life.session), pin);
        life.switch(WIDGET, false);
        life.close(NORMAL);
        let actions = life.start();
        assert_eq!(last_pin(&actions), Some(pin));
        assert_eq!(get_always_on_top(&life.session), pin);
        assert_eq!(life.disk.unwrap().always_on_top, pin);
    }
}

#[test]
fn a_first_pin_keeps_the_fallback_geometry() {
    let mut life = Life { session: Session::new(), disk: None };
    life.pin(true);
    assert_eq!(life.disk, Some(WindowState { always_on_top: true, ..fallback_window_state() }));
}

#[test]
fn the_widget_geometry_lasts() {
    let mut life = Life { session: Session::new(), disk: None };
    life.switch(NORMAL, true);
    life.switch(WIDGET, false);
    life.close(FULL);
    life.start();
    life.pin(true);
    life.close(NORMAL);
    life.start();
    let plan = life.switch(NORMAL, true);
    assert_eq!(plan.later, apply_geometry_delayed(WIDGET, true));
}

#[test]
fn the_normal_geometry_lasts() {
    let mut life = Life { session: Session::new(), disk: None };
    life.switch(NORMAL, true);
    life.close(WIDGET);
    life.start();
    life.pin(true);
    life.close(FULL);
    life.start();
    let plan = life.switch(WIDGET, false);
    assert_eq!(plan.later, apply_geometry_delayed(NORMAL, false));
}
