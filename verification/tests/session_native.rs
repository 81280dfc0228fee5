use monhop_transport::protocol::{
    DeviceId, DisplayDescription, DisplayId, DisplayTopology, GesturePhase, HidUsage, MouseButton,
    Platform, Point, PointerGesture, SystemGesture,
};
use monhop_transport::session_native::{
    current_displays, last_destination_step, mac_post, mac_step, namespaced_display_id,
    permission_due, require_action_authorization, residual_after, validate_environment,
    windows_post, Applied, ControlLog, DestinationSteps, EnvironmentFailure, InjectionControl,
    InjectionLedger, InjectorStart, Landing, LandingNote, LocalControl, NativeDisplay, NativePost,
    Permission, Residual, Sequencer,
};
use monhop_transport::session_receiver::{
    ActionLog, DestinationAction, DestinationFailure, InputDestination,
};
use monhop_transport::time::from_millis;
use std::cell::RefCell;
use std::rc::Rc;

fn coordinate(value: f64) -> i64 {
    let magnitude = value.abs().to_bits() as i64;
    if value < 0.0 {
        -magnitude
    } else {
        magnitude
    }
}

fn number(coordinate: i64) -> f64 {
    let magnitude = f64::from_bits(coordinate.unsigned_abs());
    if coordinate < 0 {
        -magnitude
    } else {
        magnitude
    }
}

fn point(x: f64, y: f64) -> Point {
    Point {
        x: coordinate(x),
        y: coordinate(y),
    }
}

#[test]
fn display_ids_are_namespaced_by_owning_computer() {
    let a = DeviceId([1; 16]);
    let b = DeviceId([2; 16]);
    assert_ne!(
        namespaced_display_id(a, DisplayId(1)),
        namespaced_display_id(b, DisplayId(1))
    );
    assert_ne!(
        namespaced_display_id(a, DisplayId(1)),
        namespaced_display_id(a, DisplayId(2))
    );
    assert_eq!(
        namespaced_display_id(a, DisplayId(1)),
        namespaced_display_id(a, DisplayId(1))
    );
}

#[test]
fn a_namespaced_id_hashes_the_computer_and_then_the_display() {
    let mut expected: u64 = 0xcbf2_9ce4_8422_2325;
    let mut bytes = vec![7u8; 16];
    bytes.extend_from_slice(&0x0102_0304_0506_0708u64.to_le_bytes());
    for byte in bytes {
        expected = (expected ^ u64::from(byte)).wrapping_mul(0x0000_0100_0000_01b3);
    }
    assert_eq!(
        namespaced_display_id(DeviceId([7; 16]), DisplayId(0x0102_0304_0506_0708)),
        DisplayId(expected)
    );
}

#[test]
fn power_or_network_revocation_blocks_input_but_not_managed_release() {
    let mut signal = LocalControl::new(true);
    let movement = DestinationAction::MoveTo(point(1.0, 1.0));
    let mut steps = DestinationSteps::new(Platform::MacOs);
    assert_eq!(
        require_action_authorization(&mut signal, movement, &mut steps),
        Ok(())
    );
    assert_eq!(last_destination_step(&steps), 0);
    signal.stopping = true;
    for action in [
        movement,
        DestinationAction::Key {
            usage: HidUsage(4),
            pressed: true,
        },
        DestinationAction::Key {
            usage: HidUsage(4),
            pressed: false,
        },
        DestinationAction::Button {
            button: MouseButton::Left,
            pressed: true,
            click_count: 2,
        },
        DestinationAction::Scroll {
            horizontal: coordinate(0.5),
            vertical: coordinate(-0.5),
        },
        DestinationAction::Gesture(PointerGesture::Magnify {
            phase: GesturePhase::Began,
            delta: 0,
        }),
        DestinationAction::System(SystemGesture::Overview),
    ] {
        assert_eq!(
            require_action_authorization(&mut signal, action, &mut steps),
            Err(DestinationFailure)
        );
        assert_eq!(last_destination_step(&steps), 9);
    }
    for release in [
        DestinationAction::EndGestures,
        DestinationAction::ReleaseAll,
    ] {
        assert_eq!(
            require_action_authorization(&mut signal, release, &mut steps),
            Ok(())
        );
    }
    assert!(signal.stopping);
}

#[test]
fn pending_down_counts_before_admission_and_repeats_do_not_recount() {
    let mut gate = LocalControl::new(true);
    let mut ledger = InjectionLedger::new(true);
    let down = DestinationAction::Key {
        usage: HidUsage(4),
        pressed: true,
    };
    assert!(ledger.begin(down, &mut gate));
    assert!(gate.injected_held());
    ledger.complete(down, &mut gate);
    assert!(ledger.begin(down, &mut gate));
    ledger.complete(down, &mut gate);
    let up = DestinationAction::Key {
        usage: HidUsage(4),
        pressed: false,
    };
    assert!(ledger.begin(up, &mut gate));
    ledger.complete(up, &mut gate);
    assert!(!gate.injected_held());
}

#[test]
fn closed_admission_uncounts_a_down_and_release_is_still_allowed() {
    let mut gate = LocalControl::new(false);
    let mut ledger = InjectionLedger::new(true);
    assert!(!ledger.begin(
        DestinationAction::Button {
            button: MouseButton::Left,
            pressed: true,
            click_count: 1,
        },
        &mut gate
    ));
    assert!(!gate.injected_held());
    assert!(!ledger.begin(
        DestinationAction::System(SystemGesture::Search),
        &mut gate
    ));
    gate.note_injected_press();
    assert!(ledger.begin(DestinationAction::EndGestures, &mut gate));
    ledger.complete(DestinationAction::EndGestures, &mut gate);
    assert!(
        gate.injected_held(),
        "ending gestures releases no key or button"
    );
    assert!(ledger.begin(DestinationAction::ReleaseAll, &mut gate));
    ledger.complete(DestinationAction::ReleaseAll, &mut gate);
    assert!(!gate.injected_held());
}

#[test]
fn a_pinch_counts_as_held_until_it_ends_and_a_chord_only_while_posting() {
    let mut gate = LocalControl::new(true);
    let mut ledger = InjectionLedger::new(true);
    let pinch = |phase| DestinationAction::Gesture(PointerGesture::Magnify { phase, delta: 0 });
    for (phase, held) in [
        (GesturePhase::Began, true),
        (GesturePhase::Changed, true),
        (GesturePhase::Began, true),
        (GesturePhase::Ended, false),
    ] {
        assert!(ledger.begin(pinch(phase), &mut gate));
        ledger.complete(pinch(phase), &mut gate);
        assert_eq!(gate.injected_held(), held, "{:?}", phase);
    }
    assert!(ledger.begin(pinch(GesturePhase::Began), &mut gate));
    ledger.complete(pinch(GesturePhase::Began), &mut gate);
    ledger.complete(DestinationAction::EndGestures, &mut gate);
    assert!(
        !gate.injected_held(),
        "ending gestures ends the pinch's modifier"
    );
    let chord = DestinationAction::System(SystemGesture::Overview);
    assert!(ledger.begin(chord, &mut gate));
    assert!(gate.injected_held(), "a chord counts while it posts");
    ledger.complete(chord, &mut gate);
    assert!(!gate.injected_held());

    let mut mac = InjectionLedger::new(false);
    assert!(mac.begin(pinch(GesturePhase::Began), &mut gate));
    mac.complete(pinch(GesturePhase::Began), &mut gate);
    assert!(
        !gate.injected_held(),
        "a pinch that holds no key counts nothing"
    );
    mac.complete(pinch(GesturePhase::Ended), &mut gate);
    assert!(!gate.injected_held());
}

#[derive(Debug, PartialEq)]
enum Posted {
    Move(f64, f64),
    Button(MouseButton, bool, u8),
    ReleaseAll,
}

fn posted(action: DestinationAction) -> Posted {
    match action {
        DestinationAction::MoveTo(point) => Posted::Move(number(point.x), number(point.y)),
        DestinationAction::Button {
            button,
            pressed,
            click_count,
        } => Posted::Button(button, pressed, click_count),
        DestinationAction::ReleaseAll => Posted::ReleaseAll,
        DestinationAction::Key { .. }
        | DestinationAction::Scroll { .. }
        | DestinationAction::Gesture(_)
        | DestinationAction::System(_)
        | DestinationAction::EndGestures => {
            unreachable!("not posted here")
        }
    }
}

fn display(id: u64, x: f64) -> DisplayDescription {
    DisplayDescription {
        id: DisplayId(id),
        name: format!("Display {}", id),
        native_width: 1920,
        native_height: 1080,
        logical_origin: point(x, 0.0),
        logical_size: point(1920.0, 1080.0),
        logical_end: point(x + 1920.0, 1080.0),
        scale_factor: coordinate(1.0),
        is_primary: id == 1,
        monitor: None,
    }
}

fn displays() -> DisplayTopology {
    DisplayTopology::new(vec![display(1, 0.0), display(2, 1920.0)])
}

/// Who holds control, shared between the sequencer and the fake injector.
#[derive(Default)]
struct Shared {
    stopping: bool,
    admits: bool,
    held: u64,
}

#[derive(Clone)]
struct Gate(Rc<RefCell<Shared>>);

impl Gate {
    fn injected_held(&self) -> bool {
        self.0.borrow().held > 0
    }

    /// Ends control the way a local take-back or a revocation does.
    fn end_control(&self, revoke: bool) {
        if revoke {
            self.0.borrow_mut().stopping = true;
        } else {
            self.0.borrow_mut().admits = false;
        }
    }
}

impl InjectionControl for Gate {
    fn calls(&self) -> ControlLog {
        unreachable!()
    }

    fn is_stopping(&mut self) -> bool {
        self.0.borrow().stopping
    }

    fn admits_injection(&mut self) -> bool {
        self.0.borrow().admits
    }

    fn note_injected_press(&mut self) {
        self.0.borrow_mut().held += 1;
    }

    fn note_injected_up(&mut self) {
        let held = self.0.borrow().held;
        self.0.borrow_mut().held = held.saturating_sub(1);
    }

    fn note_injected_released(&mut self) {
        self.0.borrow_mut().held = 0;
    }
}

/// The rules for clicks that belong together, as far as a double click needs them: a second press
/// near the first lands on it, and the drag that follows keeps that shift on its own display.
#[derive(Default)]
struct Clicks {
    at: (f64, f64),
    landed: Option<(MouseButton, (f64, f64))>,
    shift: Option<(f64, f64)>,
}

impl Clicks {
    fn press_target(&self, button: MouseButton, click_count: u8) -> Option<(f64, f64)> {
        let (landed_button, landed) = self.landed?;
        let near = (landed.0 - self.at.0).abs() <= 10.0 && (landed.1 - self.at.1).abs() <= 10.0;
        if landed_button == button && click_count > 1 && near && landed != self.at {
            Some(landed)
        } else {
            None
        }
    }

    fn shifted(&self, to: (f64, f64)) -> (f64, f64) {
        match self.shift {
            Some(shift) if (to.0 < 1920.0) == (self.at.0 < 1920.0) => {
                (to.0 + shift.0, to.1 + shift.1)
            }
            _ => to,
        }
    }

    fn landing(&self, action: DestinationAction) -> Landing {
        let place = |at: (f64, f64)| point(at.0, at.1);
        let mut landing = Landing {
            target: place(self.at),
            snap: None,
            back: None,
        };
        match action {
            DestinationAction::MoveTo(to) => {
                landing.target = place(self.shifted((number(to.x), number(to.y))));
            }
            DestinationAction::Button {
                button,
                pressed: true,
                click_count,
            } => landing.snap = self.press_target(button, click_count).map(place),
            DestinationAction::Button { pressed: false, .. } => {
                landing.back = self.shift.map(|_| place(self.at));
            }
            _ => {}
        }
        landing
    }

    fn note(&mut self, note: LandingNote) {
        match note {
            LandingNote::Nothing => {}
            LandingNote::Moved(to) => {
                let to = (number(to.x), number(to.y));
                if (to.0 < 1920.0) != (self.at.0 < 1920.0) {
                    self.shift = None;
                }
                self.at = to;
            }
            LandingNote::Pressed(button, click_count) => {
                if let Some(target) = self.press_target(button, click_count) {
                    self.shift = Some((target.0 - self.at.0, target.1 - self.at.1));
                } else {
                    self.landed = Some((button, self.at));
                }
            }
            LandingNote::Released(_) => self.shift = None,
            LandingNote::Cleared => {
                self.shift = None;
                self.landed = None;
            }
        }
    }
}

/// Records each post, fails the one at `fail`, and may end control after the first.
struct Injector {
    posts: Vec<Posted>,
    fail: Option<usize>,
    ending: Option<(Gate, bool)>,
}

impl InputDestination for Injector {
    fn history(&self) -> ActionLog {
        unreachable!()
    }

    fn apply(&mut self, action: DestinationAction) -> Result<(), DestinationFailure> {
        self.posts.push(posted(action));
        if let Some((gate, revoke)) = &self.ending {
            gate.end_control(*revoke);
        }
        if self.fail == Some(self.posts.len() - 1) {
            Err(DestinationFailure)
        } else {
            Ok(())
        }
    }
}

struct Fixture {
    sequencer: Sequencer,
    clicks: Clicks,
    gate: Gate,
    steps: DestinationSteps,
}

impl Fixture {
    /// Two 1920x1080 displays side by side, admitting injection.
    fn new() -> Fixture {
        Fixture {
            sequencer: Sequencer::new(Platform::Windows),
            steps: DestinationSteps::new(Platform::MacOs),
            clicks: Clicks::default(),
            gate: Gate(Rc::new(RefCell::new(Shared {
                stopping: false,
                admits: true,
                held: 0,
            }))),
        }
    }

    fn run(
        &mut self,
        action: DestinationAction,
        fail: Option<usize>,
        ending: Option<bool>,
    ) -> (Result<(), DestinationFailure>, Vec<Posted>) {
        let mut injector = Injector {
            posts: Vec::new(),
            fail,
            ending: ending.map(|revoke| (self.gate.clone(), revoke)),
        };
        let landing = self.clicks.landing(action);
        let Applied { result, note } = self.sequencer.apply(
            action,
            landing,
            &mut self.gate,
            &mut injector,
            &mut self.steps,
        );
        self.clicks.note(note);
        (result, injector.posts)
    }

    fn apply(
        &mut self,
        action: DestinationAction,
        fail: Option<usize>,
    ) -> (Result<(), DestinationFailure>, Vec<Posted>) {
        self.run(action, fail, None)
    }

    fn posts(&mut self, action: DestinationAction) -> Vec<Posted> {
        let (result, posts) = self.apply(action, None);
        assert_eq!(result, Ok(()));
        posts
    }

    fn left_is_down(&self) -> bool {
        self.sequencer.admission.button_is_down(MouseButton::Left)
    }
}

fn move_to(x: f64, y: f64) -> DestinationAction {
    DestinationAction::MoveTo(point(x, y))
}

fn left(pressed: bool, click_count: u8) -> DestinationAction {
    DestinationAction::Button {
        button: MouseButton::Left,
        pressed,
        click_count,
    }
}

/// A single click at (100, 200), then the source's jittered second press at (106, 195).
fn snapped_double() -> Fixture {
    let mut fixture = Fixture::new();
    fixture.posts(move_to(100.0, 200.0));
    fixture.posts(left(true, 1));
    fixture.posts(left(false, 1));
    fixture.posts(move_to(106.0, 195.0));
    assert_eq!(
        fixture.posts(left(true, 2)),
        [
            Posted::Move(100.0, 200.0),
            Posted::Button(MouseButton::Left, true, 2)
        ],
        "the snap, then the press, each its own post"
    );
    fixture
}

#[test]
fn a_snapped_drag_follows_the_hand_then_moves_back_after_its_release() {
    let mut fixture = snapped_double();
    assert_eq!(
        fixture.posts(move_to(109.0, 195.0)),
        [Posted::Move(103.0, 200.0)],
        "a 3-unit move moves the cursor 3 units"
    );
    assert_eq!(
        fixture.posts(left(false, 2)),
        [
            Posted::Button(MouseButton::Left, false, 2),
            Posted::Move(109.0, 195.0)
        ],
        "released at the shifted point, then back to the source's own point"
    );
    assert!(!fixture.gate.injected_held());
    assert_eq!(
        fixture.posts(move_to(110.0, 195.0)),
        [Posted::Move(110.0, 195.0)]
    );
}

#[test]
fn a_failed_move_back_leaves_the_release_recorded() {
    let mut fixture = snapped_double();
    let (result, tried) = fixture.apply(left(false, 2), Some(1));
    assert_eq!(result, Err(DestinationFailure));
    assert_eq!(
        tried,
        [
            Posted::Button(MouseButton::Left, false, 2),
            Posted::Move(106.0, 195.0)
        ]
    );
    assert!(!fixture.left_is_down());
    assert!(
        !fixture.gate.injected_held(),
        "ReleaseAll owes no second button-up"
    );
    assert_eq!(
        fixture.posts(move_to(107.0, 195.0)),
        [Posted::Move(107.0, 195.0)],
        "the released snap no longer shifts"
    );
}

#[test]
fn a_failed_snap_posts_no_press() {
    let mut fixture = Fixture::new();
    fixture.posts(move_to(100.0, 200.0));
    fixture.posts(left(true, 1));
    fixture.posts(left(false, 1));
    fixture.posts(move_to(104.0, 200.0));
    let (result, tried) = fixture.apply(left(true, 2), Some(0));
    assert_eq!(result, Err(DestinationFailure));
    assert_eq!(tried, [Posted::Move(100.0, 200.0)]);
    assert!(!fixture.left_is_down());
}

#[test]
fn a_refused_press_posts_no_snap_and_release_all_forgets_the_landing() {
    let mut fixture = snapped_double();
    assert_eq!(
        fixture.posts(DestinationAction::ReleaseAll),
        [Posted::ReleaseAll]
    );
    assert_eq!(
        fixture.posts(move_to(104.0, 200.0)),
        [Posted::Move(104.0, 200.0)],
        "the release of all input ended the shift"
    );
    assert_eq!(
        fixture.posts(left(true, 3)),
        [Posted::Button(MouseButton::Left, true, 3)],
        "and forgot the first landing"
    );
    fixture.posts(left(false, 3));
    fixture.posts(move_to(108.0, 200.0));
    assert_eq!(
        fixture.clicks.press_target(MouseButton::Left, 2),
        Some((104.0, 200.0)),
        "admitted, this press would snap"
    );

    fixture.gate.end_control(false);
    assert_eq!(fixture.apply(left(true, 2), None).1, []);
    assert_eq!(fixture.apply(move_to(100.0, 200.0), None).1, []);
}

#[test]
fn a_snapped_drag_across_a_seam_drops_its_shift_there() {
    let mut fixture = Fixture::new();
    fixture.posts(move_to(1912.0, 500.0));
    fixture.posts(left(true, 1));
    fixture.posts(left(false, 1));
    fixture.posts(move_to(1919.0, 500.0));
    fixture.posts(left(true, 2));
    assert_eq!(
        fixture.posts(move_to(1921.0, 500.0)),
        [Posted::Move(1921.0, 500.0)],
        "on the next display, the source's own point: one jump, no dead zone"
    );
    assert_eq!(
        fixture.posts(move_to(1915.0, 500.0)),
        [Posted::Move(1915.0, 500.0)],
        "the shift stays dropped"
    );
    assert_eq!(
        fixture.posts(left(false, 2)),
        [Posted::Button(MouseButton::Left, false, 2)],
        "nothing to move back from"
    );
}

#[test]
fn control_ending_after_a_release_skips_its_move_back() {
    for revoke in [false, true] {
        let mut fixture = snapped_double();
        let (result, tried) = fixture.run(left(false, 2), None, Some(revoke));
        assert_eq!(result, Ok(()));
        assert_eq!(
            tried,
            [Posted::Button(MouseButton::Left, false, 2)],
            "no warp after control ended"
        );
        assert!(!fixture.left_is_down());
        assert!(!fixture.gate.injected_held());
        assert_eq!(
            fixture.posts(DestinationAction::ReleaseAll),
            [Posted::ReleaseAll]
        );
    }
}

#[test]
fn control_ending_after_a_snap_refuses_its_press() {
    for revoke in [false, true] {
        let mut fixture = Fixture::new();
        fixture.posts(move_to(100.0, 200.0));
        fixture.posts(left(true, 1));
        fixture.posts(left(false, 1));
        fixture.posts(move_to(104.0, 200.0));
        let (result, tried) = fixture.run(left(true, 2), None, Some(revoke));
        assert_eq!(result, Ok(()));
        assert_eq!(
            tried,
            [Posted::Move(100.0, 200.0)],
            "the press never follows the snap"
        );
        assert!(!fixture.left_is_down());
        assert!(
            !fixture.gate.injected_held(),
            "the refused press is un-counted"
        );
    }
}

#[test]
fn windows_moves_only_onto_a_display_and_scrolls_in_whole_units() {
    let displays = displays();
    assert_eq!(
        windows_post(&displays, move_to(1919.5, 10.0), None),
        Ok(NativePost::Move(point(1919.5, 10.0)))
    );
    assert_eq!(
        windows_post(&displays, move_to(3840.0, 10.0), None),
        Err(DestinationFailure)
    );
    let scroll = DestinationAction::Scroll {
        horizontal: coordinate(0.5),
        vertical: coordinate(1.0),
    };
    assert_eq!(
        windows_post(&displays, scroll, Some((60, 120))),
        Ok(NativePost::Wheel {
            horizontal: 60,
            vertical: 120
        })
    );
    assert_eq!(
        windows_post(&displays, scroll, Some((0, 0))),
        Ok(NativePost::NoWheel)
    );
    assert_eq!(
        windows_post(&displays, scroll, None),
        Err(DestinationFailure)
    );
    assert_eq!(
        windows_post(&displays, DestinationAction::ReleaseAll, None),
        Ok(NativePost::EndGesturesAndRelease)
    );
    assert_eq!(
        mac_post(scroll),
        NativePost::Inject(DestinationAction::Scroll {
            horizontal: coordinate(-0.5),
            vertical: coordinate(1.0),
        })
    );
    assert_eq!(mac_post(left(true, 1)), NativePost::Inject(left(true, 1)));
    assert_eq!(
        mac_post(DestinationAction::ReleaseAll),
        NativePost::EndGesturesAndRelease
    );
}

#[test]
fn each_native_step_has_its_code() {
    assert_eq!(mac_step(move_to(0.0, 0.0)), 10);
    assert_eq!(mac_step(left(true, 1)), 12);
    assert_eq!(mac_step(DestinationAction::EndGestures), 17);
    let mut steps = DestinationSteps::new(Platform::MacOs);
    assert_eq!(last_destination_step(&steps), 0);
    assert_eq!(steps.note_step(12), DestinationFailure);
    assert_eq!(last_destination_step(&steps), 12);
}

#[test]
fn a_destination_is_made_only_while_nothing_stops_and_its_injector_is_there() {
    let mut steps = DestinationSteps::new(Platform::MacOs);
    assert_eq!(steps.check_construction(false, InjectorStart::Made), Ok(()));
    assert_eq!(
        steps.check_construction(false, InjectorStart::NoDesktop),
        Err(DestinationFailure)
    );
    assert_eq!(last_destination_step(&steps), 0);
    assert_eq!(
        steps.check_construction(false, InjectorStart::NoInjector),
        Err(DestinationFailure)
    );
    assert_eq!(last_destination_step(&steps), 4);
    assert_eq!(
        steps.check_construction(true, InjectorStart::Made),
        Err(DestinationFailure)
    );
    assert_eq!(last_destination_step(&steps), 1);
    assert_eq!(
        steps.check_environment(false, Permission::Granted, false),
        Err(EnvironmentFailure::DisplaysChanged)
    );
    assert_eq!(last_destination_step(&steps), 8);
    assert_eq!(
        steps.check_environment(false, Permission::Granted, true),
        Ok(())
    );
    assert_eq!(last_destination_step(&steps), 8);
}

#[test]
fn a_failed_post_is_noted_on_macos_alone() {
    for (platform, expected) in [(Platform::MacOs, 10), (Platform::Windows, 0)] {
        let mut fixture = Fixture::new();
        fixture.steps = DestinationSteps::new(platform);
        let (result, _) = fixture.apply(move_to(1.0, 1.0), Some(0));
        assert_eq!(result, Err(DestinationFailure));
        assert_eq!(last_destination_step(&fixture.steps), expected);
    }
}

#[test]
fn the_wheel_residual_is_reset_by_a_release_and_replaced_by_a_done_scroll() {
    let scroll = DestinationAction::Scroll {
        horizontal: coordinate(0.5),
        vertical: coordinate(1.0),
    };
    let failed = Err(DestinationFailure);
    assert_eq!(residual_after(scroll, Ok(())), Residual::Replace);
    assert_eq!(residual_after(scroll, failed), Residual::Keep);
    assert_eq!(
        residual_after(DestinationAction::ReleaseAll, Ok(())),
        Residual::Reset
    );
    assert_eq!(
        residual_after(DestinationAction::ReleaseAll, failed),
        Residual::Reset
    );
    assert_eq!(residual_after(left(true, 1), Ok(())), Residual::Keep);
}

#[test]
fn the_environment_fails_at_the_first_check_that_does() {
    assert_eq!(
        validate_environment(true, Permission::Denied, false),
        Err((5, EnvironmentFailure::Destination))
    );
    assert_eq!(
        validate_environment(false, Permission::Unreadable, false),
        Err((7, EnvironmentFailure::Destination))
    );
    assert_eq!(
        validate_environment(false, Permission::Denied, false),
        Err((6, EnvironmentFailure::Destination))
    );
    assert_eq!(
        validate_environment(false, Permission::Granted, false),
        Err((8, EnvironmentFailure::DisplaysChanged))
    );
    assert_eq!(
        validate_environment(false, Permission::Granted, true),
        Ok(())
    );
    assert!(permission_due(None, 0));
    assert!(!permission_due(Some(0), from_millis(249)));
    assert!(permission_due(Some(0), from_millis(250)));
}

fn listed(id: u64, name: Option<&str>) -> NativeDisplay {
    NativeDisplay {
        id: DisplayId(id),
        name: name.map(str::to_string),
        native_width: 200,
        native_height: 100,
        logical_origin: point(0.0, 0.0),
        logical_size: point(100.0, 50.0),
        logical_end: point(100.0, 50.0),
        scale_factor: coordinate(2.0),
        is_primary: id == 7,
        monitor: name.map(|name| format!("{name} panel")),
    }
}

#[test]
fn listed_displays_carry_their_computer_and_a_name() {
    let device = DeviceId([3; 16]);
    let displays = [listed(7, Some("Studio")), listed(120, None)];
    let topology = current_displays(device, Some(&displays), true).unwrap();
    assert_eq!(topology.displays.len(), 2);
    for (described, native) in topology.displays.iter().zip(&displays) {
        assert_eq!(described.id, namespaced_display_id(device, native.id));
        assert_eq!(described.logical_size, native.logical_size);
        assert_eq!(described.monitor, native.monitor);
        assert_eq!(described.is_primary, native.is_primary);
    }
    assert_eq!(topology.displays[0].name, "Studio");
    assert_eq!(topology.displays[1].name, "Display 120");
    assert!(current_displays(device, Some(&[]), true).unwrap().displays.is_empty());
    assert_eq!(current_displays(device, Some(&displays), false), Err(DestinationFailure));
    assert_eq!(current_displays(device, None, true), Err(DestinationFailure));
}

#[test]
fn a_phase_that_ends_a_pinch_ends_it_whatever_its_code() {
    let pinch = |phase| DestinationAction::Gesture(PointerGesture::Magnify { phase, delta: 0 });
    let other = |ends| GesturePhase::Other { code: 7, ends };
    let mut gate = LocalControl::new(true);
    let mut ledger = InjectionLedger::new(true);
    assert!(ledger.begin(pinch(GesturePhase::Began), &mut gate));
    ledger.complete(pinch(GesturePhase::Began), &mut gate);
    ledger.complete(pinch(other(false)), &mut gate);
    assert!(gate.injected_held());
    ledger.complete(pinch(other(true)), &mut gate);
    assert!(!gate.injected_held());
    let swipe = DestinationAction::Gesture(PointerGesture::Other(42));
    assert_eq!(mac_post(swipe), NativePost::Inject(swipe));
}
