//! What is decided before and after each native post. Nothing here enables capture.

use crate::bytes::{from_be, lemma_be_limits, lemma_from_to_be, lemma_to_be_len, to_be};
use crate::protocol::{
    negate, negated, Coordinate, DeviceId, DisplayDescription, DisplayId, DisplayTopology,
    GesturePhase, MouseButton, Platform, Point, PointerGesture,
};
use crate::session_receiver::{
    all_up, ActionLog, DestinationAction, DestinationFailure, InputDestination,
};
use crate::text::{ascii, decimal, push_decimal};
use crate::time::{span, Duration};
use vstd::prelude::*;

verus! {

/// The macOS permission query is a round trip to the system, asked at most this often while
/// displays are still compared on every check.
pub const PERMISSION_RECHECK: Duration = 250_000_000;

pub const FNV_OFFSET: u64 = 0xcbf2_9ce4_8422_2325;

pub const FNV_PRIME: u64 = 0x0000_0100_0000_01b3;

/// The FNV-1a hash of `bytes`.
pub open spec fn fnv(bytes: Seq<u8>) -> u64
    decreases bytes.len(),
{
    if bytes.len() == 0 {
        FNV_OFFSET
    } else {
        (fnv(bytes.drop_last()) ^ (bytes.last() as u64)).wrapping_mul(FNV_PRIME)
    }
}

/// The little-endian bytes of `value`.
pub open spec fn le_bytes(value: u64) -> Seq<u8> {
    to_be(value as nat, 8).reverse()
}

fn fnv_step(hash: u64, byte: u8) -> (next: u64)
    ensures
        next == (hash ^ (byte as u64)).wrapping_mul(FNV_PRIME),
{
    (hash ^ (byte as u64)).wrapping_mul(FNV_PRIME)
}

/// Two computers can report the same native display id (two Macs, two Windows PCs), so every
/// id carries its owning computer; both sides derive the peer's ids from the same rule.
pub fn namespaced_display_id(device: DeviceId, native: DisplayId) -> (id: DisplayId)
    ensures
        id.0 == fnv(device.0@ + le_bytes(native.0)),
{
    let mut hash: u64 = FNV_OFFSET;
    let mut index: usize = 0;
    assert(device.0@.take(0) =~= Seq::<u8>::empty());
    while index < 16
        invariant
            index <= 16,
            hash == fnv(device.0@.take(index as int)),
        decreases 16 - index,
    {
        proof {
            assert(device.0@.take(index + 1).drop_last() =~= device.0@.take(index as int));
        }
        hash = fnv_step(hash, device.0[index]);
        index = index + 1;
    }
    let mut rest: u64 = native.0;
    let mut count: usize = 0;
    let ghost tail = le_bytes(native.0);
    proof {
        crate::bytes::lemma_to_be_len(native.0 as nat, 8);
        assert(device.0@.take(16) =~= device.0@ + tail.take(0));
        lemma_le_digits(native.0 as nat, 8);
        assert(shifted(native.0 as nat, 0) == native.0);
    }
    while count < 8
        invariant
            count <= 8,
            tail == le_bytes(native.0),
            tail.len() == 8,
            rest == shifted(native.0 as nat, count as nat),
            forall|i: int|
                0 <= i < 8 ==> #[trigger] tail[i] == (shifted(native.0 as nat, i as nat)
                    % 256) as u8,
            hash == fnv(device.0@ + tail.take(count as int)),
        decreases 8 - count,
    {
        let byte: u8 = (rest % 256) as u8;
        proof {
            assert(byte == tail[count as int]);
            let longer = device.0@ + tail.take(count + 1);
            assert(longer.drop_last() =~= device.0@ + tail.take(count as int));
            assert(longer.last() == tail[count as int]);
        }
        hash = fnv_step(hash, byte);
        rest = rest / 256;
        count = count + 1;
        proof {
            lemma_shifted_step(native.0 as nat, (count - 1) as nat);
        }
    }
    assert(tail.take(8) =~= tail);
    DisplayId(hash)
}

/// What is known of a monitor, as text.
pub open spec fn monitor_text(monitor: Option<String>) -> Option<Seq<char>> {
    match monitor {
        Some(text) => Some(text@),
        None => None,
    }
}

/// A display as the platform lists it.
#[derive(Clone, Debug, PartialEq, Eq)]
pub struct NativeDisplay {
    pub id: DisplayId,
    pub name: Option<String>,
    pub native_width: u32,
    pub native_height: u32,
    pub logical_origin: Point,
    pub logical_size: Point,
    pub logical_end: Point,
    pub scale_factor: Coordinate,
    pub is_primary: bool,
    /// What the platform knows of the monitor behind it, as it says it.
    pub monitor: Option<String>,
}

impl NativeDisplay {
    /// The name it is shown under: its own, or one made of its native id.
    pub open spec fn shown_name(self) -> Seq<char> {
        match self.name {
            Some(name) => name@,
            None => "Display "@ + ascii(decimal(self.id.0 as nat)),
        }
    }

    /// The peers of `device` know the display by `described`.
    pub open spec fn is_described(self, device: DeviceId, described: DisplayDescription) -> bool {
        &&& described.id.0 == fnv(device.0@ + le_bytes(self.id.0))
        &&& described.name@ == self.shown_name()
        &&& described.native_width == self.native_width
        &&& described.native_height == self.native_height
        &&& described.logical_origin == self.logical_origin
        &&& described.logical_size == self.logical_size
        &&& described.logical_end == self.logical_end
        &&& described.scale_factor == self.scale_factor
        &&& described.is_primary == self.is_primary
        &&& monitor_text(described.monitor) == monitor_text(self.monitor)
    }

    pub fn describe(&self, device: DeviceId) -> (described: DisplayDescription)
        ensures
            self.is_described(device, described),
    {
        let name = match &self.name {
            Some(name) => name.clone(),
            None => {
                let mut name = "Display ".to_owned();
                push_decimal(&mut name, self.id.0);
                name
            },
        };
        DisplayDescription {
            id: namespaced_display_id(device, self.id),
            name,
            native_width: self.native_width,
            native_height: self.native_height,
            logical_origin: self.logical_origin,
            logical_size: self.logical_size,
            logical_end: self.logical_end,
            scale_factor: self.scale_factor,
            is_primary: self.is_primary,
            monitor: match &self.monitor {
                Some(monitor) => Some(monitor.clone()),
                None => None,
            },
        }
    }
}

/// The displays of `device` as its peers know them, from what the platform lists; nothing where it
/// could not be asked. `is_valid` says whether the protocol admits them.
pub fn current_displays(
    device: DeviceId,
    listed: Option<&[NativeDisplay]>,
    is_valid: bool,
) -> (current: Result<DisplayTopology, DestinationFailure>)
    ensures
        match listed {
            Some(displays) if is_valid => current matches Ok(topology) && topology@.len()
                == displays@.len() && forall|i: int|
                0 <= i < displays@.len() ==> displays@[i].is_described(
                    device,
                    #[trigger] topology@[i],
                ),
            _ => current == Err::<DisplayTopology, _>(DestinationFailure),
        },
{
    if !is_valid {
        return Err(DestinationFailure);
    }
    let displays = match listed {
        Some(displays) => displays,
        None => return Err(DestinationFailure),
    };
    let mut described: Vec<DisplayDescription> = Vec::new();
    let mut index: usize = 0;
    while index < displays.len()
        invariant
            index <= displays@.len(),
            described@.len() == index,
            forall|i: int|
                0 <= i < index ==> displays@[i].is_described(device, #[trigger] described@[i]),
        decreases displays@.len() - index,
    {
        described.push(displays[index].describe(device));
        index = index + 1;
    }
    Ok(DisplayTopology::new(described))
}

/// `value` without its last `bytes` bytes.
spec fn shifted(value: nat, bytes: nat) -> nat
    decreases bytes,
{
    if bytes == 0 {
        value
    } else {
        shifted(value / 256, (bytes - 1) as nat)
    }
}

proof fn lemma_shifted_step(value: nat, bytes: nat)
    ensures
        shifted(value, bytes + 1) == shifted(value, bytes) / 256,
    decreases bytes,
{
    reveal_with_fuel(shifted, 2);
    if bytes > 0 {
        lemma_shifted_step(value / 256, (bytes - 1) as nat);
    }
}

proof fn lemma_le_digits(value: nat, width: nat)
    ensures
        to_be(value, width).reverse().len() == width,
        forall|i: int|
            0 <= i < width ==> #[trigger] to_be(value, width).reverse()[i] == (shifted(
                value,
                i as nat,
            ) % 256) as u8,
    decreases width,
{
    crate::bytes::lemma_to_be_len(value, width);
    if width > 0 {
        let head = to_be(value / 256, (width - 1) as nat);
        lemma_le_digits(value / 256, (width - 1) as nat);
        crate::bytes::lemma_to_be_len(value / 256, (width - 1) as nat);
        assert forall|i: int| 0 <= i < width implies #[trigger] to_be(value, width).reverse()[i]
            == (shifted(value, i as nat) % 256) as u8 by {
            if i > 0 {
                assert(to_be(value, width).reverse()[i] == head.reverse()[i - 1]);
            }
        }
    }
}

/// One question to, or note for, whoever holds control of the local input.
#[derive(Clone, Copy, Debug, PartialEq, Eq, Structural)]
pub enum ControlCall {
    /// Whether the session was asked to stop.
    Stopping(bool),
    /// Whether injected input is admitted.
    Admits(bool),
    /// One more injected key or button is down.
    Press,
    /// One injected key or button came up.
    Up,
    /// None is down any more.
    Released,
}

pub type ControlLog = Seq<ControlCall>;

/// Who holds control of the local input: the session's stop signal and the take-back gate. Both
/// can change between two calls.
pub trait InjectionControl {
    /// Every call so far, with what it answered.
    spec fn calls(&self) -> ControlLog;

    fn is_stopping(&mut self) -> (stopping: bool)
        ensures
            final(self).calls() == old(self).calls().push(ControlCall::Stopping(stopping)),
    ;

    fn admits_injection(&mut self) -> (admits: bool)
        ensures
            final(self).calls() == old(self).calls().push(ControlCall::Admits(admits)),
    ;

    fn note_injected_press(&mut self)
        ensures
            final(self).calls() == old(self).calls().push(ControlCall::Press),
    ;

    fn note_injected_up(&mut self)
        ensures
            final(self).calls() == old(self).calls().push(ControlCall::Up),
    ;

    fn note_injected_released(&mut self)
        ensures
            final(self).calls() == old(self).calls().push(ControlCall::Released),
    ;
}

/// How many injected keys and buttons the notes in `calls` leave down, as a 64-bit counter that
/// stops at its ends counts them.
pub open spec fn held_count(calls: ControlLog) -> u64
    decreases calls.len(),
{
    if calls.len() == 0 {
        0
    } else {
        let before = held_count(calls.drop_last());
        match calls.last() {
            ControlCall::Press => if before < u64::MAX {
                (before + 1) as u64
            } else {
                before
            },
            ControlCall::Up => if before > 0 {
                (before - 1) as u64
            } else {
                before
            },
            ControlCall::Released => 0,
            _ => before,
        }
    }
}

/// Control held by a single thread.
pub struct LocalControl {
    pub stopping: bool,
    pub admits: bool,
    pub held: u64,
    pub log: Ghost<ControlLog>,
}

impl LocalControl {
    /// The counter is what the notes make it.
    pub open spec fn wf(self) -> bool {
        self.held == held_count(self.log@)
    }

    pub fn new(admits: bool) -> (control: LocalControl)
        ensures
            control.wf(),
            control.log@ == Seq::<ControlCall>::empty(),
            control.admits == admits,
            !control.stopping,
    {
        LocalControl { stopping: false, admits, held: 0, log: Ghost(Seq::empty()) }
    }

    /// Whether anything injected is down.
    pub fn injected_held(&self) -> (held: bool)
        requires
            self.wf(),
        ensures
            held == (held_count(self.log@) > 0),
    {
        self.held > 0
    }
}

impl InjectionControl for LocalControl {
    open spec fn calls(&self) -> ControlLog {
        self.log@
    }

    fn is_stopping(&mut self) -> (stopping: bool)
        ensures
            stopping == old(self).stopping,
            final(self).stopping == old(self).stopping,
            final(self).admits == old(self).admits,
            old(self).wf() ==> final(self).wf(),
    {
        let stopping = self.stopping;
        self.log = Ghost(self.log@.push(ControlCall::Stopping(stopping)));
        assert(self.log@.drop_last() =~= old(self).log@);
        stopping
    }

    fn admits_injection(&mut self) -> (admits: bool)
        ensures
            admits == old(self).admits,
            final(self).stopping == old(self).stopping,
            final(self).admits == old(self).admits,
            old(self).wf() ==> final(self).wf(),
    {
        let admits = self.admits;
        self.log = Ghost(self.log@.push(ControlCall::Admits(admits)));
        assert(self.log@.drop_last() =~= old(self).log@);
        admits
    }

    fn note_injected_press(&mut self)
        ensures
            final(self).stopping == old(self).stopping,
            final(self).admits == old(self).admits,
            old(self).wf() ==> final(self).wf(),
    {
        self.held = self.held.saturating_add(1);
        self.log = Ghost(self.log@.push(ControlCall::Press));
        assert(self.log@.drop_last() =~= old(self).log@);
    }

    fn note_injected_up(&mut self)
        ensures
            final(self).stopping == old(self).stopping,
            final(self).admits == old(self).admits,
            old(self).wf() ==> final(self).wf(),
    {
        self.held = self.held.saturating_sub(1);
        self.log = Ghost(self.log@.push(ControlCall::Up));
        assert(self.log@.drop_last() =~= old(self).log@);
    }

    fn note_injected_released(&mut self)
        ensures
            final(self).stopping == old(self).stopping,
            final(self).admits == old(self).admits,
            old(self).wf() ==> final(self).wf(),
    {
        self.held = 0;
        self.log = Ghost(self.log@.push(ControlCall::Released));
        assert(self.log@.drop_last() =~= old(self).log@);
    }
}

/// What is down natively, as far as posts that succeeded tell.
#[verifier::ext_equal]
pub struct LedgerView {
    pub keys: Seq<bool>,
    pub buttons: Seq<bool>,
    /// A pinch may hold a synthetic modifier from its Began until it ends.
    pub magnify: bool,
    pub pinch_holds_modifier: bool,
}

/// A key action names one of the keys the ledger knows.
pub open spec fn in_ledger(action: DestinationAction) -> bool {
    action matches DestinationAction::Key { usage, .. } ==> usage.0 < 256
}

impl LedgerView {
    pub open spec fn wf(self) -> bool {
        self.keys.len() == 256 && self.buttons.len() == 5
    }

    /// The action presses something that is up.
    pub open spec fn is_new_press(self, action: DestinationAction) -> bool {
        match action {
            DestinationAction::Key { usage, pressed } => pressed && !self.keys[usage.0 as int],
            DestinationAction::Button { button, pressed, .. } => pressed
                && !self.buttons[button.place()],
            DestinationAction::Gesture(PointerGesture::Magnify { phase, .. }) => phase
                == GesturePhase::Began && self.pinch_holds_modifier && !self.magnify,
            DestinationAction::System(_) => true,
            _ => false,
        }
    }

    /// The notes that count a press before it is posted.
    pub open spec fn counted(self, action: DestinationAction, calls: ControlLog) -> ControlLog {
        if self.is_new_press(action) {
            calls.push(ControlCall::Press)
        } else {
            calls
        }
    }

    /// The notes that take back the count of a press that will not be posted.
    pub open spec fn refused(self, action: DestinationAction, calls: ControlLog) -> ControlLog {
        if self.is_new_press(action) {
            calls.push(ControlCall::Up)
        } else {
            calls
        }
    }

    /// What admission of an action asks and notes, and whether it was admitted.
    pub open spec fn begun(
        self,
        action: DestinationAction,
        calls: ControlLog,
        answers: ControlLog,
    ) -> (ControlLog, bool) {
        if action.releases() {
            (calls, true)
        } else {
            let counted = self.counted(action, calls);
            let admits = answers[counted.len() as int] == ControlCall::Admits(true);
            let asked = counted.push(ControlCall::Admits(admits));
            (
                if admits {
                    asked
                } else {
                    self.refused(action, asked)
                },
                admits,
            )
        }
    }

    /// What a post that succeeded leaves and notes.
    pub open spec fn completed(self, action: DestinationAction, calls: ControlLog) -> (
        LedgerView,
        ControlLog,
    ) {
        match action {
            DestinationAction::Key { usage, pressed } => (
                LedgerView { keys: self.keys.update(usage.0 as int, pressed), ..self },
                if !pressed && self.keys[usage.0 as int] {
                    calls.push(ControlCall::Up)
                } else {
                    calls
                },
            ),
            DestinationAction::Button { button, pressed, .. } => (
                LedgerView { buttons: self.buttons.update(button.place(), pressed), ..self },
                if !pressed && self.buttons[button.place()] {
                    calls.push(ControlCall::Up)
                } else {
                    calls
                },
            ),
            DestinationAction::Gesture(PointerGesture::Magnify { phase, .. }) => if phase
                == GesturePhase::Began {
                (LedgerView { magnify: self.pinch_holds_modifier, ..self }, calls)
            } else if phase.ends_gesture() {
                self.pinch_ended(calls)
            } else {
                (self, calls)
            },
            DestinationAction::System(_) => (self, calls.push(ControlCall::Up)),
            DestinationAction::EndGestures => self.pinch_ended(calls),
            DestinationAction::ReleaseAll => (
                LedgerView { keys: all_up(256), buttons: all_up(5), magnify: false, ..self },
                calls.push(ControlCall::Released),
            ),
            _ => (self, calls),
        }
    }

    /// The pinch gives its modifier back, if it held one.
    pub open spec fn pinch_ended(self, calls: ControlLog) -> (LedgerView, ControlLog) {
        (
            LedgerView { magnify: false, ..self },
            if self.magnify {
                calls.push(ControlCall::Up)
            } else {
                calls
            },
        )
    }
}

/// Tracks native transitions, not wire repeats, so the count includes posts still in flight.
pub struct InjectionLedger {
    keys: [bool; 256],
    buttons: [bool; 5],
    magnify: bool,
    pinch_holds_modifier: bool,
}

impl View for InjectionLedger {
    type V = LedgerView;

    closed spec fn view(&self) -> LedgerView {
        LedgerView {
            keys: self.keys@,
            buttons: self.buttons@,
            magnify: self.magnify,
            pinch_holds_modifier: self.pinch_holds_modifier,
        }
    }
}

impl InjectionLedger {
    pub fn new(pinch_holds_modifier: bool) -> (ledger: InjectionLedger)
        ensures
            ledger@ == (LedgerView {
                keys: all_up(256),
                buttons: all_up(5),
                magnify: false,
                pinch_holds_modifier,
            }),
            ledger@.wf(),
    {
        let ledger = InjectionLedger {
            keys: [false;256],
            buttons: [false;5],
            magnify: false,
            pinch_holds_modifier,
        };
        assert(ledger@.keys =~= all_up(256));
        assert(ledger@.buttons =~= all_up(5));
        ledger
    }

    /// Whether `button` is down natively.
    pub fn button_is_down(&self, button: MouseButton) -> (down: bool)
        requires
            self@.wf(),
        ensures
            down == self@.buttons[button.place()],
    {
        self.buttons[button.index()]
    }

    /// Counts a press before it asks for admission, so a press in flight is never overlooked.
    pub fn begin<C: InjectionControl>(&self, action: DestinationAction, control: &mut C) -> (
    admitted: bool)
        requires
            self@.wf(),
            in_ledger(action),
        ensures
            (final(control).calls(), admitted) == self@.begun(
                action,
                old(control).calls(),
                final(control).calls(),
            ),
    {
        if action.is_release() {
            return true;
        }
        if self.is_new_press(action) {
            control.note_injected_press();
        }
        if !control.admits_injection() {
            self.refuse(action, control);
            return false;
        }
        true
    }

    /// Un-counts a press [`InjectionLedger::begin`] counted that will not be posted.
    pub fn refuse<C: InjectionControl>(&self, action: DestinationAction, control: &mut C)
        requires
            self@.wf(),
            in_ledger(action),
        ensures
            final(control).calls() == self@.refused(action, old(control).calls()),
    {
        if self.is_new_press(action) {
            control.note_injected_up();
        }
    }

    fn is_new_press(&self, action: DestinationAction) -> (new: bool)
        requires
            self@.wf(),
            in_ledger(action),
        ensures
            new == self@.is_new_press(action),
    {
        match action {
            DestinationAction::Key { usage, pressed } => pressed
                && !self.keys[usage.0 as usize],
            DestinationAction::Button { button, pressed, .. } => pressed
                && !self.buttons[button.index()],
            DestinationAction::Gesture(PointerGesture::Magnify { phase, .. }) => phase
                == GesturePhase::Began && self.pinch_holds_modifier && !self.magnify,
            DestinationAction::System(_) => true,
            _ => false,
        }
    }

    pub fn complete<C: InjectionControl>(&mut self, action: DestinationAction, control: &mut C)
        requires
            old(self)@.wf(),
            in_ledger(action),
        ensures
            final(self)@.wf(),
            (final(self)@, final(control).calls()) == old(self)@.completed(
                action,
                old(control).calls(),
            ),
    {
        match action {
            DestinationAction::Key { usage, pressed } => {
                let index: usize = usage.0 as usize;
                if !pressed && self.keys[index] {
                    control.note_injected_up();
                }
                self.keys[index] = pressed;
            },
            DestinationAction::Button { button, pressed, .. } => {
                let index: usize = button.index();
                if !pressed && self.buttons[index] {
                    control.note_injected_up();
                }
                self.buttons[index] = pressed;
            },
            DestinationAction::Gesture(PointerGesture::Magnify { phase, .. }) => {
                if phase == GesturePhase::Began {
                    self.magnify = self.pinch_holds_modifier;
                } else if phase.is_terminal() {
                    self.end_magnify(control);
                }
            },
            // A chord releases every key it pressed before its post returns.
            DestinationAction::System(_) => {
                control.note_injected_up();
            },
            DestinationAction::EndGestures => {
                self.end_magnify(control);
            },
            DestinationAction::ReleaseAll => {
                self.keys = [false;256];
                self.buttons = [false;5];
                self.magnify = false;
                control.note_injected_released();
                assert(self@.keys =~= all_up(256));
                assert(self@.buttons =~= all_up(5));
            },
            _ => {},
        }
    }

    fn end_magnify<C: InjectionControl>(&mut self, control: &mut C)
        ensures
            (final(self)@, final(control).calls()) == old(self)@.pinch_ended(old(control).calls()),
    {
        if self.magnify {
            self.magnify = false;
            control.note_injected_up();
        }
    }
}

/// Where the rules for clicks that belong together put one action.
#[derive(Clone, Copy, Debug, PartialEq, Eq, Structural)]
pub struct Landing {
    /// For a move: where the pointer goes.
    pub target: Point,
    /// For a press: where the pointer snaps first.
    pub snap: Option<Point>,
    /// For a release: where the pointer goes back to.
    pub back: Option<Point>,
}

/// What the rules for clicks must be told about an action that was posted.
#[derive(Clone, Copy, Debug, PartialEq, Eq, Structural)]
pub enum LandingNote {
    Nothing,
    Moved(Point),
    Pressed(MouseButton, u8),
    Released(MouseButton),
    Cleared,
}

pub open spec fn landing_note(action: DestinationAction) -> LandingNote {
    match action {
        DestinationAction::MoveTo(source) => LandingNote::Moved(source),
        DestinationAction::Button { button, pressed, click_count } => if pressed {
            LandingNote::Pressed(button, click_count)
        } else {
            LandingNote::Released(button)
        },
        DestinationAction::ReleaseAll => LandingNote::Cleared,
        _ => LandingNote::Nothing,
    }
}

/// The action as it is posted: a move goes where it lands.
pub open spec fn posted_action(action: DestinationAction, landing: Landing) -> DestinationAction {
    match action {
        DestinationAction::MoveTo(_) => DestinationAction::MoveTo(landing.target),
        _ => action,
    }
}

/// The move that precedes a press.
pub open spec fn snap_of(action: DestinationAction, landing: Landing) -> Option<Point> {
    match action {
        DestinationAction::Button { pressed, .. } => if pressed {
            landing.snap
        } else {
            None
        },
        _ => None,
    }
}

/// The move that follows a release.
pub open spec fn back_of(action: DestinationAction, landing: Landing) -> Option<Point> {
    match action {
        DestinationAction::Button { pressed, .. } => if pressed {
            None
        } else {
            landing.back
        },
        _ => None,
    }
}

/// A ledger with everything asked of control and posted natively so far, and the last native check
/// that failed.
pub struct Posting {
    pub ledger: LedgerView,
    pub calls: ControlLog,
    pub posts: ActionLog,
    pub steps: DestinationSteps,
}

/// How an applied action ended, and what the rules for clicks must be told of it.
#[derive(Clone, Copy, Debug, PartialEq, Eq)]
pub struct Applied {
    pub result: Result<(), DestinationFailure>,
    pub note: LandingNote,
}

/// Whether control is still held: asked of the stop signal first, then of the holder of the floor.
pub open spec fn control_checked(calls: ControlLog, answers: ControlLog) -> (ControlLog, bool) {
    let stopping = answers[calls.len() as int] == ControlCall::Stopping(true);
    let asked = calls.push(ControlCall::Stopping(stopping));
    if stopping {
        (asked, false)
    } else {
        let admits = answers[asked.len() as int] == ControlCall::Admits(true);
        (asked.push(ControlCall::Admits(admits)), admits)
    }
}

impl Posting {
    /// Whether control is still held.
    pub open spec fn control_checked(self, answers: ControlLog) -> (Posting, bool) {
        let (calls, in_control) = control_checked(self.calls, answers);
        (Posting { calls, ..self }, in_control)
    }

    /// One native post, and whether it succeeded.
    pub open spec fn post(self, action: DestinationAction, outcomes: ActionLog) -> (Posting, bool) {
        let succeeded = outcomes[self.posts.len() as int].1;
        (
            Posting {
                posts: self.posts.push((action, succeeded)),
                steps: self.steps.posted(action, succeeded),
                ..self
            },
            succeeded,
        )
    }

    /// The action itself and what follows it, once it was admitted and nothing snapped.
    pub open spec fn carried_out(
        self,
        action: DestinationAction,
        landing: Landing,
        answers: ControlLog,
        outcomes: ActionLog,
    ) -> (Posting, Applied) {
        let (posted, succeeded) = self.post(posted_action(action, landing), outcomes);
        if !succeeded {
            (posted, Applied { result: Err(DestinationFailure), note: LandingNote::Nothing })
        } else {
            let (ledger, calls) = posted.ledger.completed(action, posted.calls);
            let done = Posting { ledger, calls, ..posted };
            let note = landing_note(action);
            match back_of(action, landing) {
                None => (done, Applied { result: Ok(()), note }),
                Some(source) => {
                    let (checked, in_control) = done.control_checked(answers);
                    if !in_control {
                        (checked, Applied { result: Ok(()), note })
                    } else {
                        let (moved, back) = checked.post(
                            DestinationAction::MoveTo(source),
                            outcomes,
                        );
                        (
                            moved,
                            Applied {
                                result: if back {
                                    Ok(())
                                } else {
                                    Err(DestinationFailure)
                                },
                                note,
                            },
                        )
                    }
                },
            }
        }
    }

    /// What [`Sequencer::apply`] leaves and answers.
    pub open spec fn applied(
        self,
        action: DestinationAction,
        landing: Landing,
        answers: ControlLog,
        outcomes: ActionLog,
    ) -> (Posting, Applied) {
        let stopping = answers[self.calls.len() as int] == ControlCall::Stopping(true);
        let asked = self.calls.push(ControlCall::Stopping(stopping));
        if stopping && !action.releases() {
            (
                Posting { calls: asked, steps: self.steps.noted(AUTHORIZATION_STEP), ..self },
                Applied { result: Err(DestinationFailure), note: LandingNote::Nothing },
            )
        } else {
            let (begun, admitted) = self.ledger.begun(action, asked, answers);
            let start = Posting { calls: begun, ..self };
            if !admitted {
                (start, Applied { result: Ok(()), note: LandingNote::Nothing })
            } else {
                match snap_of(action, landing) {
                    None => start.carried_out(action, landing, answers, outcomes),
                    Some(snap) => {
                        let (snapped, succeeded) = start.post(
                            DestinationAction::MoveTo(snap),
                            outcomes,
                        );
                        if !succeeded {
                            (
                                snapped,
                                Applied {
                                    result: Err(DestinationFailure),
                                    note: LandingNote::Nothing,
                                },
                            )
                        } else {
                            let (checked, in_control) = snapped.control_checked(answers);
                            if !in_control {
                                (
                                    Posting {
                                        calls: checked.ledger.refused(action, checked.calls),
                                        ..checked
                                    },
                                    Applied { result: Ok(()), note: LandingNote::Nothing },
                                )
                            } else {
                                checked.carried_out(action, landing, answers, outcomes)
                            }
                        }
                    },
                }
            }
        }
    }
}

/// A stop or revocation forbids new input, but never ledger-owned release cleanup.
pub fn require_action_authorization<C: InjectionControl>(
    control: &mut C,
    action: DestinationAction,
    steps: &mut DestinationSteps,
) -> (result: Result<(), DestinationFailure>)
    ensures
        ({
            let stopping = final(control).calls().last() == ControlCall::Stopping(true);
            &&& final(control).calls() == old(control).calls().push(ControlCall::Stopping(stopping))
            &&& (*final(steps), result) == (if stopping && !action.releases() {
                (old(steps).noted(AUTHORIZATION_STEP), Err::<(), _>(DestinationFailure))
            } else {
                (*old(steps), Ok::<(), DestinationFailure>(()))
            })
        }),
{
    if control.is_stopping() && !action.is_release() {
        Err(steps.note_step(AUTHORIZATION_STEP))
    } else {
        Ok(())
    }
}

/// Authorization, admission, then where a click lands: everything decided before a native post.
pub struct Sequencer {
    pub admission: InjectionLedger,
}

/// The sequencer, what control was asked, what was posted so far and which check failed last.
pub open spec fn posting_of<C: InjectionControl, D: InputDestination>(
    sequencer: Sequencer,
    control: C,
    native: D,
    steps: DestinationSteps,
) -> Posting {
    Posting { ledger: sequencer.admission@, calls: control.calls(), posts: native.history(), steps }
}

/// One native post; a failed one is noted.
fn post_noted<D: InputDestination>(
    native: &mut D,
    action: DestinationAction,
    steps: &mut DestinationSteps,
) -> (result: Result<(), DestinationFailure>)
    ensures
        final(native).history() == old(native).history().push((action, result is Ok)),
        *final(steps) == old(steps).posted(action, result is Ok),
{
    let result = native.apply(action);
    steps.note_post(action, result.is_ok());
    result
}

impl Sequencer {
    /// Only the Windows injector keeps a key down through a pinch; the Mac's zoom steps press and
    /// release at once.
    pub fn new(platform: Platform) -> (sequencer: Sequencer)
        ensures
            sequencer.admission@.wf(),
            sequencer.admission@ == (LedgerView {
                keys: all_up(256),
                buttons: all_up(5),
                magnify: false,
                pinch_holds_modifier: platform == Platform::Windows,
            }),
    {
        Sequencer { admission: InjectionLedger::new(platform == Platform::Windows) }
    }

    /// Posts any snap, the action, then any move back, one native call each. The action is done
    /// once its own post succeeds, and control ending in between drops the posts that follow.
    pub fn apply<C: InjectionControl, D: InputDestination>(
        &mut self,
        action: DestinationAction,
        landing: Landing,
        control: &mut C,
        native: &mut D,
        steps: &mut DestinationSteps,
    ) -> (applied: Applied)
        requires
            old(self).admission@.wf(),
            in_ledger(action),
        ensures
            final(self).admission@.wf(),
            (
                posting_of(*final(self), *final(control), *final(native), *final(steps)),
                applied,
            ) == posting_of(*old(self), *old(control), *old(native), *old(steps)).applied(action, landing, final(control).calls(), final(native).history()),
    {
        if let Err(failure) = require_action_authorization(control, action, steps) {
            return Applied { result: Err(failure), note: LandingNote::Nothing };
        }
        if !self.admission.begin(action, control) {
            return Applied { result: Ok(()), note: LandingNote::Nothing };
        }
        if let DestinationAction::Button { pressed: true, .. } = action {
            if let Some(snap) = landing.snap {
                if let Err(failure) = post_noted(native, DestinationAction::MoveTo(snap), steps) {
                    return Applied { result: Err(failure), note: LandingNote::Nothing };
                }
                if !still_in_control(control) {
                    self.admission.refuse(action, control);
                    return Applied { result: Ok(()), note: LandingNote::Nothing };
                }
            }
        }
        self.carry_out(action, landing, control, native, steps)
    }

    fn carry_out<C: InjectionControl, D: InputDestination>(
        &mut self,
        action: DestinationAction,
        landing: Landing,
        control: &mut C,
        native: &mut D,
        steps: &mut DestinationSteps,
    ) -> (applied: Applied)
        requires
            old(self).admission@.wf(),
            in_ledger(action),
        ensures
            final(self).admission@.wf(),
            (
                posting_of(*final(self), *final(control), *final(native), *final(steps)),
                applied,
            ) == posting_of(*old(self), *old(control), *old(native), *old(steps)).carried_out(action, landing, final(control).calls(), final(native).history()),
    {
        let own = match action {
            DestinationAction::MoveTo(_) => DestinationAction::MoveTo(landing.target),
            _ => action,
        };
        if let Err(failure) = post_noted(native, own, steps) {
            return Applied { result: Err(failure), note: LandingNote::Nothing };
        }
        self.admission.complete(action, control);
        let note = match action {
            DestinationAction::MoveTo(source) => LandingNote::Moved(source),
            DestinationAction::Button { button, pressed, click_count } => if pressed {
                LandingNote::Pressed(button, click_count)
            } else {
                LandingNote::Released(button)
            },
            DestinationAction::ReleaseAll => LandingNote::Cleared,
            _ => LandingNote::Nothing,
        };
        if let DestinationAction::Button { pressed: false, .. } = action {
            if let Some(source) = landing.back {
                if still_in_control(control) {
                    return match post_noted(native, DestinationAction::MoveTo(source), steps) {
                        Ok(()) => Applied { result: Ok(()), note },
                        Err(_) => Applied { result: Err(DestinationFailure), note },
                    };
                }
            }
        }
        Applied { result: Ok(()), note }
    }
}

/// False once a take-back or a revocation has ended control since the action's admission.
fn still_in_control<C: InjectionControl>(control: &mut C) -> (in_control: bool)
    ensures
        (final(control).calls(), in_control) == control_checked(
            old(control).calls(),
            final(control).calls(),
        ),
{
    !control.is_stopping() && control.admits_injection()
}

/// What one post asks of the platform's injector.
#[derive(Clone, Copy, Debug, PartialEq, Eq, Structural)]
pub enum NativePost {
    /// To the whole unit below each coordinate.
    Move(Point),
    Inject(DestinationAction),
    /// So many wheel units, where they are not both nothing.
    Wheel { horizontal: i32, vertical: i32 },
    /// Less than one wheel unit has come together yet, so nothing is injected.
    NoWheel,
    /// Gestures are ended and everything is released, both tried whatever the first answers.
    EndGesturesAndRelease,
}

/// Some display holds `point`.
pub open spec fn on_a_display(displays: Seq<DisplayDescription>, point: Point) -> bool {
    exists|i: int| 0 <= i < displays.len() && (#[trigger] displays[i]).holds_point(point)
}

/// What a Windows post of `action` comes to. `wheel` is the scroll in whole wheel units with the
/// residual of earlier ones, absent where it fits in no 32-bit count.
///
/// Windows topology already uses physical pixels, including negative origins. Rounding down avoids
/// moving an interior fractional point into the next display.
pub fn windows_post(
    displays: &DisplayTopology,
    action: DestinationAction,
    wheel: Option<(i32, i32)>,
) -> (post: Result<NativePost, DestinationFailure>)
    ensures
        match action {
            DestinationAction::MoveTo(point) => post == (if on_a_display(displays@, point) {
                Ok(NativePost::Move(point))
            } else {
                Err(DestinationFailure)
            }),
            DestinationAction::Scroll { .. } => post == (match wheel {
                None => Err(DestinationFailure),
                Some((horizontal, vertical)) => if horizontal == 0 && vertical == 0 {
                    Ok(NativePost::NoWheel)
                } else {
                    Ok(NativePost::Wheel { horizontal, vertical })
                },
            }),
            DestinationAction::ReleaseAll => post == Ok::<NativePost, DestinationFailure>(
                NativePost::EndGesturesAndRelease,
            ),
            _ => post == Ok::<NativePost, DestinationFailure>(NativePost::Inject(action)),
        },
{
    match action {
        DestinationAction::MoveTo(point) => {
            let mut index: usize = 0;
            while index < displays.displays.len()
                invariant
                    index <= displays.displays@.len(),
                    displays@ == displays.displays@,
                    action == DestinationAction::MoveTo(point),
                    forall|i: int|
                        0 <= i < index ==> !(#[trigger] displays@[i]).holds_point(point),
                decreases displays.displays@.len() - index,
            {
                if displays.displays[index].contains(point) {
                    assert(displays@[index as int].holds_point(point));
                    return Ok(NativePost::Move(point));
                }
                index = index + 1;
            }
            Err(DestinationFailure)
        },
        DestinationAction::Scroll { .. } => match wheel {
            None => Err(DestinationFailure),
            Some((horizontal, vertical)) => if horizontal == 0 && vertical == 0 {
                Ok(NativePost::NoWheel)
            } else {
                Ok(NativePost::Wheel { horizontal, vertical })
            },
        },
        DestinationAction::ReleaseAll => Ok(NativePost::EndGesturesAndRelease),
        _ => Ok(NativePost::Inject(action)),
    }
}

/// What a macOS post of `action` comes to: every action is the injector's own. Its horizontal
/// scroll runs the other way.
pub fn mac_post(action: DestinationAction) -> (post: NativePost)
    ensures
        post == (match action {
            DestinationAction::ReleaseAll => NativePost::EndGesturesAndRelease,
            DestinationAction::Scroll { horizontal, vertical } => NativePost::Inject(
                DestinationAction::Scroll { horizontal: negated(horizontal), vertical },
            ),
            _ => NativePost::Inject(action),
        }),
{
    match action {
        DestinationAction::ReleaseAll => NativePost::EndGesturesAndRelease,
        DestinationAction::Scroll { horizontal, vertical } => NativePost::Inject(
            DestinationAction::Scroll { horizontal: negate(horizontal), vertical },
        ),
        _ => NativePost::Inject(action),
    }
}

/// What becomes of the part of a wheel unit that has come together on Windows.
#[derive(Clone, Copy, Debug, PartialEq, Eq, Structural)]
pub enum Residual {
    Keep,
    /// By what the scroll left over.
    Replace,
    /// To nothing.
    Reset,
}

/// What becomes of the wheel residual after a Windows post of `action`. A release forgets it, done
/// or not, and a scroll adds to it only once whatever it came to was injected.
pub fn residual_after(action: DestinationAction, posted: Result<(), DestinationFailure>) -> (
residual: Residual)
    ensures
        residual == (match action {
            DestinationAction::ReleaseAll => Residual::Reset,
            DestinationAction::Scroll { .. } => if posted is Ok {
                Residual::Replace
            } else {
                Residual::Keep
            },
            _ => Residual::Keep,
        }),
{
    match action {
        DestinationAction::ReleaseAll => Residual::Reset,
        DestinationAction::Scroll { .. } => if posted.is_ok() {
            Residual::Replace
        } else {
            Residual::Keep
        },
        _ => Residual::Keep,
    }
}

/// Which native step a macOS post of `action` is, for diagnostics.
pub open spec fn step_of(action: DestinationAction) -> u8 {
    match action {
        DestinationAction::MoveTo(_) => 10,
        DestinationAction::Key { .. } => 11,
        DestinationAction::Button { .. } => 12,
        DestinationAction::Scroll { .. } => 13,
        DestinationAction::ReleaseAll => 14,
        DestinationAction::Gesture(_) => 15,
        DestinationAction::System(_) => 16,
        DestinationAction::EndGestures => 17,
    }
}

pub fn mac_step(action: DestinationAction) -> (step: u8)
    ensures
        step == step_of(action),
{
    match action {
        DestinationAction::MoveTo(_) => 10,
        DestinationAction::Key { .. } => 11,
        DestinationAction::Button { .. } => 12,
        DestinationAction::Scroll { .. } => 13,
        DestinationAction::ReleaseAll => 14,
        DestinationAction::Gesture(_) => 15,
        DestinationAction::System(_) => 16,
        DestinationAction::EndGestures => 17,
    }
}

/// The step of a destination that is made although the session was asked to stop.
pub const CONSTRUCTION_STEP: u8 = 1;

/// The step of a macOS injector that could not be made.
pub const INJECTOR_STEP: u8 = 4;

/// The step of an action that comes although the session was asked to stop.
pub const AUTHORIZATION_STEP: u8 = 9;

/// How making a platform's injector went.
#[derive(Clone, Copy, Debug, PartialEq, Eq, Structural)]
pub enum InjectorStart {
    Made,
    /// The Windows desktop that the displays span is none.
    NoDesktop,
    /// The macOS injector could not be made.
    NoInjector,
}

/// The last native check that failed, as a small code; zero while none did.
#[derive(Clone, Copy, Debug, PartialEq, Eq, Structural)]
pub struct DestinationSteps {
    pub platform: Platform,
    pub last: u8,
}

impl DestinationSteps {
    pub open spec fn noted(self, step: u8) -> DestinationSteps {
        DestinationSteps { last: step, ..self }
    }

    /// After a native post. Only the macOS posts have steps of their own.
    pub open spec fn posted(self, action: DestinationAction, succeeded: bool) -> DestinationSteps {
        if succeeded || self.platform == Platform::Windows {
            self
        } else {
            self.noted(step_of(action))
        }
    }

    pub fn new(platform: Platform) -> (steps: DestinationSteps)
        ensures
            steps == (DestinationSteps { platform, last: 0 }),
    {
        DestinationSteps { platform, last: 0 }
    }

    pub fn note_step(&mut self, step: u8) -> (failure: DestinationFailure)
        ensures
            *final(self) == old(self).noted(step),
    {
        self.last = step;
        DestinationFailure
    }

    /// Notes how a native post of `action` went.
    pub fn note_post(&mut self, action: DestinationAction, succeeded: bool)
        ensures
            *final(self) == old(self).posted(action, succeeded),
    {
        if !succeeded && self.platform != Platform::Windows {
            self.last = mac_step(action);
        }
    }

    /// Whether a native destination may be made, and was. A desktop that is none has no step.
    pub fn check_construction(&mut self, stopping: bool, injector: InjectorStart) -> (result:
        Result<(), DestinationFailure>)
        ensures
            (*final(self), result) == (if stopping {
                (old(self).noted(CONSTRUCTION_STEP), Err::<(), _>(DestinationFailure))
            } else {
                match injector {
                    InjectorStart::Made => (*old(self), Ok::<(), DestinationFailure>(())),
                    InjectorStart::NoDesktop => (*old(self), Err::<(), _>(DestinationFailure)),
                    InjectorStart::NoInjector => (
                        old(self).noted(INJECTOR_STEP),
                        Err::<(), _>(DestinationFailure),
                    ),
                }
            }),
    {
        if stopping {
            return Err(self.note_step(CONSTRUCTION_STEP));
        }
        match injector {
            InjectorStart::Made => Ok(()),
            InjectorStart::NoDesktop => Err(DestinationFailure),
            InjectorStart::NoInjector => Err(self.note_step(INJECTOR_STEP)),
        }
    }

    /// Whether the environment still holds; a failure is noted by its step.
    pub fn check_environment(
        &mut self,
        stopping: bool,
        permission: Permission,
        displays_hold: bool,
    ) -> (result: Result<(), EnvironmentFailure>)
        ensures
            (*final(self), result) == (match environment_verdict(
                stopping,
                permission,
                displays_hold,
            ) {
                Ok(()) => (*old(self), Ok::<(), EnvironmentFailure>(())),
                Err((step, failure)) => (old(self).noted(step), Err::<(), _>(failure)),
            }),
    {
        match validate_environment(stopping, permission, displays_hold) {
            Ok(()) => Ok(()),
            Err((step, failure)) => {
                self.last = step;
                Err(failure)
            },
        }
    }
}

/// The last native destination check that failed, as a small code for diagnostics.
pub fn last_destination_step(steps: &DestinationSteps) -> (step: u8)
    ensures
        step == steps.last,
{
    steps.last
}

#[derive(Clone, Copy, Debug, PartialEq, Eq, Structural)]
pub enum EnvironmentFailure {
    Destination,
    DisplaysChanged,
}

/// What the platform says of the permission to inject.
#[derive(Clone, Copy, Debug, PartialEq, Eq, Structural)]
pub enum Permission {
    Granted,
    Denied,
    /// It could not be asked.
    Unreadable,
}

/// Whether the macOS permission must be asked again at `now`.
pub fn permission_due(checked: Option<Duration>, now: Duration) -> (due: bool)
    ensures
        due == (match checked {
            Some(at) => span(now as nat, at as nat) >= PERMISSION_RECHECK,
            None => true,
        }),
{
    match checked {
        Some(at) => now.saturating_sub(at) >= PERMISSION_RECHECK,
        None => true,
    }
}

/// The first check of the environment that fails, with its step.
pub open spec fn environment_verdict(
    stopping: bool,
    permission: Permission,
    displays_hold: bool,
) -> Result<(), (u8, EnvironmentFailure)> {
    if stopping {
        Err((5u8, EnvironmentFailure::Destination))
    } else if permission == Permission::Unreadable {
        Err((7u8, EnvironmentFailure::Destination))
    } else if permission == Permission::Denied {
        Err((6u8, EnvironmentFailure::Destination))
    } else if !displays_hold {
        Err((8u8, EnvironmentFailure::DisplaysChanged))
    } else {
        Ok(())
    }
}

/// What must still hold for injection: no revocation, the ordinary desktop on Windows or the
/// Accessibility permission on macOS, and the displays the session started with. A failure comes
/// with the step that found it.
pub fn validate_environment(
    stopping: bool,
    permission: Permission,
    displays_hold: bool,
) -> (result: Result<(), (u8, EnvironmentFailure)>)
    ensures
        result == environment_verdict(stopping, permission, displays_hold),
{
    if stopping {
        return Err((5, EnvironmentFailure::Destination));
    }
    match permission {
        Permission::Unreadable => return Err((7, EnvironmentFailure::Destination)),
        Permission::Denied => return Err((6, EnvironmentFailure::Destination)),
        Permission::Granted => {},
    }
    if !displays_hold {
        return Err((8, EnvironmentFailure::DisplaysChanged));
    }
    Ok(())
}

/// A session asked to stop injects nothing more, with the refusal noted, while release is never
/// refused.
pub proof fn law_a_stop_blocks_input_but_not_release(
    posting: Posting,
    action: DestinationAction,
    landing: Landing,
    answers: ControlLog,
    outcomes: ActionLog,
)
    requires
        answers[posting.calls.len() as int] == ControlCall::Stopping(true),
    ensures
        !action.releases() ==> {
            let (after, applied) = posting.applied(action, landing, answers, outcomes);
            &&& applied.result is Err
            &&& after.posts == posting.posts
            &&& after.ledger == posting.ledger
            &&& after.steps.last == AUTHORIZATION_STEP
        },
        action.releases() ==> posting.applied(action, landing, answers, outcomes).0.posts
            == posting.posts.push((action, outcomes[posting.posts.len() as int].1)),
{
}

/// A press that is not admitted is never posted, and its count is taken back.
pub proof fn law_a_refused_press_is_uncounted(
    ledger: LedgerView,
    action: DestinationAction,
    calls: ControlLog,
    answers: ControlLog,
)
    requires
        !ledger.begun(action, calls, answers).1,
        held_count(calls) < u64::MAX,
    ensures
        held_count(ledger.begun(action, calls, answers).0) == held_count(calls),
{
    let counted = ledger.counted(action, calls);
    let asked = counted.push(ControlCall::Admits(false));
    assert(asked.drop_last() =~= counted);
    assert(held_count(asked) == held_count(counted));
    if ledger.is_new_press(action) {
        assert(counted.drop_last() =~= calls);
        assert(held_count(counted) == held_count(calls) + 1);
        let refused = ledger.refused(action, asked);
        assert(refused.drop_last() =~= asked);
        assert(held_count(refused) == held_count(asked) - 1);
    }
}

/// A repeat of a key that is down counts nothing, and its release counts it up once: a press, any
/// repeats and a release leave the count where it was.
pub proof fn law_a_key_is_counted_once(
    ledger: LedgerView,
    usage: crate::protocol::HidUsage,
    calls: ControlLog,
)
    requires
        ledger.wf(),
        usage.0 < 256,
        !ledger.keys[usage.0 as int],
        held_count(calls) < u64::MAX,
    ensures
        ({
            let down = DestinationAction::Key { usage, pressed: true };
            let up = DestinationAction::Key { usage, pressed: false };
            let counted = ledger.counted(down, calls);
            let (pressed, after_down) = ledger.completed(down, counted);
            let (released, after_up) = pressed.completed(up, after_down);
            &&& held_count(after_down) == held_count(calls) + 1
            &&& pressed.counted(down, after_down) == after_down
            &&& pressed.completed(down, after_down) == (pressed, after_down)
            &&& held_count(after_up) == held_count(calls)
            &&& released == ledger
        }),
{
    let down = DestinationAction::Key { usage, pressed: true };
    let up = DestinationAction::Key { usage, pressed: false };
    let counted = ledger.counted(down, calls);
    let (pressed, after_down) = ledger.completed(down, counted);
    let (released, after_up) = pressed.completed(up, after_down);
    assert(counted.drop_last() =~= calls);
    assert(after_up.drop_last() =~= after_down);
    assert(pressed.completed(down, after_down).0.keys =~= pressed.keys);
    assert(released.keys =~= ledger.keys);
}

/// The control check that follows `calls` finds control gone.
pub open spec fn control_ended(calls: ControlLog, answers: ControlLog) -> bool {
    !control_checked(calls, answers).1
}

/// Control that ends after a snap refuses its press: the press is never posted, and its count is
/// taken back.
pub proof fn law_control_ending_after_a_snap_refuses_its_press(
    posting: Posting,
    button: MouseButton,
    click_count: u8,
    landing: Landing,
    snap: Point,
    answers: ControlLog,
    outcomes: ActionLog,
)
    requires
        landing.snap == Some(snap),
        answers[posting.calls.len() as int] != ControlCall::Stopping(true),
        held_count(posting.calls) < u64::MAX,
        ({
            let press = DestinationAction::Button { button, pressed: true, click_count };
            let asked = posting.calls.push(ControlCall::Stopping(false));
            let (begun, admitted) = posting.ledger.begun(press, asked, answers);
            admitted && control_ended(begun, answers)
        }),
    ensures
        ({
            let press = DestinationAction::Button { button, pressed: true, click_count };
            let (after, applied) = posting.applied(press, landing, answers, outcomes);
            &&& after.posts == posting.posts.push(
                (DestinationAction::MoveTo(snap), outcomes[posting.posts.len() as int].1),
            )
            &&& after.ledger == posting.ledger
            &&& applied.note == LandingNote::Nothing
            &&& applied.result is Ok ==> held_count(after.calls) == held_count(posting.calls)
        }),
{
    let press = DestinationAction::Button { button, pressed: true, click_count };
    let asked = posting.calls.push(ControlCall::Stopping(false));
    let counted = posting.ledger.counted(press, asked);
    let begun = posting.ledger.begun(press, asked, answers).0;
    let checked = control_checked(begun, answers).0;
    assert(asked.drop_last() =~= posting.calls);
    assert(held_count(asked) == held_count(posting.calls));
    assert(begun.drop_last() =~= counted);
    assert(held_count(begun) == held_count(counted));
    let stopped = begun.push(checked[begun.len() as int]);
    assert(stopped.drop_last() =~= begun);
    assert(held_count(stopped) == held_count(begun));
    assert(checked == stopped || checked.drop_last() =~= stopped);
    assert(held_count(checked) == held_count(begun));
    if posting.ledger.is_new_press(press) {
        assert(counted.drop_last() =~= asked);
        assert(held_count(counted) == held_count(asked) + 1);
        let refused = posting.ledger.refused(press, checked);
        assert(refused.drop_last() =~= checked);
        assert(held_count(refused) == held_count(checked) - 1);
    }
}

/// Control that ends after a release skips its move back, with the release recorded.
pub proof fn law_control_ending_after_a_release_skips_its_move_back(
    posting: Posting,
    button: MouseButton,
    click_count: u8,
    landing: Landing,
    answers: ControlLog,
    outcomes: ActionLog,
)
    requires
        answers[posting.calls.len() as int] != ControlCall::Stopping(true),
        outcomes[posting.posts.len() as int].1,
        ({
            let release = DestinationAction::Button { button, pressed: false, click_count };
            let asked = posting.calls.push(ControlCall::Stopping(false));
            let (begun, admitted) = posting.ledger.begun(release, asked, answers);
            admitted && control_ended(posting.ledger.completed(release, begun).1, answers)
        }),
    ensures
        ({
            let release = DestinationAction::Button { button, pressed: false, click_count };
            let (after, applied) = posting.applied(release, landing, answers, outcomes);
            &&& after.posts == posting.posts.push((release, true))
            &&& after.ledger.buttons == posting.ledger.buttons.update(button.place(), false)
            &&& applied == (Applied { result: Ok(()), note: LandingNote::Released(button) })
        }),
{
}

/// Whether the control lets an action begin whose questions begin at `place` of the answers: the
/// session is not stopping, and input is admitted unless the action releases.
pub open spec fn may_begin(posting: Posting, action: DestinationAction, answers: ControlLog) -> bool {
    let place = posting.calls.len() as int;
    let counts: int = if posting.ledger.is_new_press(action) {
        1
    } else {
        0
    };
    action.releases() || answers[place] != ControlCall::Stopping(true) && answers[place + 1
        + counts] == ControlCall::Admits(true)
}

/// What may begin is posted, a move to its landing and everything else as it came, unless the
/// pointer has to snap first. A post that failed is the failure of the action, and the ledger keeps
/// what it had; one that succeeded leaves the note of the action.
pub proof fn law_what_may_begin_is_posted(
    posting: Posting,
    action: DestinationAction,
    landing: Landing,
    answers: ControlLog,
    outcomes: ActionLog,
)
    requires
        may_begin(posting, action, answers),
        landing.snap is None || !(action is Button),
    ensures
        ({
            let (after, applied) = posting.applied(action, landing, answers, outcomes);
            let place = posting.posts.len() as int;
            let expected = if action is MoveTo {
                DestinationAction::MoveTo(landing.target)
            } else {
                action
            };
            &&& after.posts.len() > place
            &&& after.posts.take(place) == posting.posts
            &&& after.posts[place] == (expected, outcomes[place].1)
            &&& !outcomes[place].1 ==> applied.result is Err && after.ledger == posting.ledger
                && applied.note == LandingNote::Nothing && after.posts.len() == place + 1
            &&& outcomes[place].1 && (landing.back is None || !(action is Button))
                ==> applied.result is Ok && after.posts.len() == place + 1
            &&& outcomes[place].1 ==> applied.note == (match action {
                DestinationAction::MoveTo(source) => LandingNote::Moved(source),
                DestinationAction::Button { button, pressed: true, click_count } =>
                    LandingNote::Pressed(button, click_count),
                DestinationAction::Button { button, pressed: false, click_count } =>
                    LandingNote::Released(button),
                DestinationAction::ReleaseAll => LandingNote::Cleared,
                _ => LandingNote::Nothing,
            })
        }),
{
    let (after, applied) = posting.applied(action, landing, answers, outcomes);
    assert(after.posts.take(posting.posts.len() as int) =~= posting.posts);
}

/// What may not begin is not posted, and neither the ledger nor the landing hears of it.
pub proof fn law_what_may_not_begin_is_not_posted(
    posting: Posting,
    action: DestinationAction,
    landing: Landing,
    answers: ControlLog,
    outcomes: ActionLog,
)
    requires
        !may_begin(posting, action, answers),
    ensures
        ({
            let (after, applied) = posting.applied(action, landing, answers, outcomes);
            &&& after.posts == posting.posts
            &&& after.ledger == posting.ledger
            &&& applied.note == LandingNote::Nothing
            &&& applied.result is Err <==> answers[posting.calls.len() as int]
                == ControlCall::Stopping(true)
        }),
{
}

/// A press that snaps moves the pointer first; where control lasts, the press follows as it came,
/// and where the move failed the press is not tried.
pub proof fn law_a_snapped_press_follows_its_move(
    posting: Posting,
    button: MouseButton,
    click_count: u8,
    landing: Landing,
    snap: Point,
    answers: ControlLog,
    outcomes: ActionLog,
)
    requires
        landing.snap == Some(snap),
        may_begin(
            posting,
            DestinationAction::Button { button, pressed: true, click_count },
            answers,
        ),
    ensures
        ({
            let press = DestinationAction::Button { button, pressed: true, click_count };
            let (after, applied) = posting.applied(press, landing, answers, outcomes);
            let place = posting.posts.len() as int;
            let counts: int = if posting.ledger.is_new_press(press) {
                1
            } else {
                0
            };
            let asked = posting.calls.len() as int + 2 + counts;
            let in_control = answers[asked] != ControlCall::Stopping(true) && answers[asked + 1]
                == ControlCall::Admits(true);
            &&& after.posts.len() > place
            &&& after.posts[place] == (DestinationAction::MoveTo(snap), outcomes[place].1)
            &&& !outcomes[place].1 ==> applied.result is Err && after.posts.len() == place + 1
            &&& outcomes[place].1 && in_control ==> after.posts.len() == place + 2
                && after.posts[place + 1] == (press, outcomes[place + 1].1) && (applied.result is Ok
                <==> outcomes[place + 1].1)
        }),
{
}

/// A release after which the pointer goes back is followed by that move while control lasts, and
/// the move's failure is the action's.
pub proof fn law_a_release_is_followed_by_its_move_back(
    posting: Posting,
    button: MouseButton,
    click_count: u8,
    landing: Landing,
    back: Point,
    answers: ControlLog,
    outcomes: ActionLog,
)
    requires
        landing.back == Some(back),
        outcomes[posting.posts.len() as int].1,
        may_begin(
            posting,
            DestinationAction::Button { button, pressed: false, click_count },
            answers,
        ),
    ensures
        ({
            let release = DestinationAction::Button { button, pressed: false, click_count };
            let (after, applied) = posting.applied(release, landing, answers, outcomes);
            let place = posting.posts.len() as int;
            let counts: int = if posting.ledger.buttons[button.place()] {
                1
            } else {
                0
            };
            let asked = posting.calls.len() as int + 2 + counts;
            let in_control = answers[asked] != ControlCall::Stopping(true) && answers[asked + 1]
                == ControlCall::Admits(true);
            &&& after.posts[place] == (release, true)
            &&& in_control ==> after.posts.len() == place + 2 && after.posts[place + 1] == (
                DestinationAction::MoveTo(back),
                outcomes[place + 1].1,
            ) && (applied.result is Ok <==> outcomes[place + 1].1)
            &&& !in_control ==> after.posts.len() == place + 1 && applied.result is Ok
        }),
{
}

/// The ledger holds exactly what completed actions left down: a key or a button is as its last
/// action left it, everything is up after a release of everything, a pinch holds its modifier from
/// its beginning to its end, and no action touches anything else.
pub proof fn law_the_ledger_holds_what_is_down(
    ledger: LedgerView,
    action: DestinationAction,
    calls: ControlLog,
)
    requires
        ledger.wf(),
        in_ledger(action),
    ensures
        ({
            let after = ledger.completed(action, calls).0;
            &&& after.wf()
            &&& after.pinch_holds_modifier == ledger.pinch_holds_modifier
            &&& forall|key: int| 0 <= key < 256 ==> #[trigger] after.keys[key] == (match action {
                DestinationAction::Key { usage, pressed } => if usage.0 == key {
                    pressed
                } else {
                    ledger.keys[key]
                },
                DestinationAction::ReleaseAll => false,
                _ => ledger.keys[key],
            })
            &&& forall|place: int|
                0 <= place < 5 ==> #[trigger] after.buttons[place] == (match action {
                    DestinationAction::Button { button, pressed, click_count } =>
                        if button.place() == place {
                            pressed
                        } else {
                            ledger.buttons[place]
                        },
                    DestinationAction::ReleaseAll => false,
                    _ => ledger.buttons[place],
                })
            &&& action is ReleaseAll || action is EndGestures ==> !after.magnify
            &&& action is Key || action is Button || action is MoveTo || action is Scroll
                || action is System ==> after.magnify == ledger.magnify
        }),
{
}

/// How many of them are down.
pub open spec fn count_down(down: Seq<bool>) -> nat
    decreases down.len(),
{
    if down.len() == 0 {
        0
    } else {
        count_down(down.drop_last()) + if down.last() {
            1nat
        } else {
            0nat
        }
    }
}

proof fn lemma_update_counts(down: Seq<bool>, place: int, pressed: bool)
    requires
        0 <= place < down.len(),
    ensures
        count_down(down.update(place, pressed)) == count_down(down) + (if pressed {
            1int
        } else {
            0int
        }) - (if down[place] {
            1int
        } else {
            0int
        }),
    decreases down.len(),
{
    let updated = down.update(place, pressed);
    if place == down.len() - 1 {
        assert(updated.drop_last() =~= down.drop_last());
    } else {
        assert(updated.drop_last() =~= down.drop_last().update(place, pressed));
        lemma_update_counts(down.drop_last(), place, pressed);
    }
}

proof fn lemma_nothing_down_counts_nothing(count: nat)
    ensures
        count_down(all_up(count)) == 0,
    decreases count,
{
    if count > 0 {
        assert(all_up(count).drop_last() =~= all_up((count - 1) as nat));
        lemma_nothing_down_counts_nothing((count - 1) as nat);
    }
}

/// The control counts as many as the ledger holds down, and a pinch holds a modifier only where
/// pinches do.
pub open spec fn counts_what_is_down(posting: Posting) -> bool {
    &&& posting.ledger.magnify ==> posting.ledger.pinch_holds_modifier
    &&& held_count(posting.calls) == count_down(posting.ledger.keys) + count_down(
        posting.ledger.buttons,
    ) + if posting.ledger.magnify {
        1nat
    } else {
        0nat
    }
}

/// The count that the control keeps of what is held down is right after every action that did not
/// fail, whatever the control answered: nothing is counted twice and nothing stays counted after it
/// came up.
#[verifier::rlimit(40)]
pub proof fn law_the_control_counts_what_is_down(
    posting: Posting,
    action: DestinationAction,
    landing: Landing,
    answers: ControlLog,
    outcomes: ActionLog,
)
    requires
        posting.ledger.wf(),
        in_ledger(action),
        counts_what_is_down(posting),
        held_count(posting.calls) < u64::MAX,
        posting.applied(action, landing, answers, outcomes).1.result is Ok,
    ensures
        counts_what_is_down(posting.applied(action, landing, answers, outcomes).0),
{
    let ledger = posting.ledger;
    lemma_nothing_down_counts_nothing(256);
    lemma_nothing_down_counts_nothing(5);
    match action {
        DestinationAction::Key { usage, pressed } => {
            lemma_update_counts(ledger.keys, usage.0 as int, pressed);
        },
        DestinationAction::Button { button, pressed, .. } => {
            lemma_update_counts(ledger.buttons, button.place(), pressed);
        },
        _ => {},
    }
    let stopping = answers[posting.calls.len() as int] == ControlCall::Stopping(true);
    let asked = posting.calls.push(ControlCall::Stopping(stopping));
    lemma_push_counts(posting.calls, ControlCall::Stopping(stopping));
    let counted = ledger.counted(action, asked);
    lemma_push_counts(asked, ControlCall::Press);
    let admits = answers[counted.len() as int] == ControlCall::Admits(true);
    lemma_push_counts(counted, ControlCall::Admits(admits));
    lemma_push_counts(counted.push(ControlCall::Admits(admits)), ControlCall::Up);
    let (begun, admitted) = ledger.begun(action, asked, answers);
    if admitted {
        let start = Posting { calls: begun, ..posting };
        let checked = match snap_of(action, landing) {
            None => start,
            Some(snap) => start.post(DestinationAction::MoveTo(snap), outcomes).0.control_checked(
                answers,
            ).0,
        };
        lemma_control_questions_count_nothing(begun, answers);
        lemma_push_counts(checked.calls, ControlCall::Up);
        assert(checked.ledger == ledger);
        assert(held_count(checked.calls) == held_count(begun));
        lemma_push_counts(checked.calls, ControlCall::Released);
        let done = ledger.completed(action, checked.calls).1;
        lemma_control_questions_count_nothing(done, answers);
    }
}

proof fn lemma_push_counts(calls: ControlLog, call: ControlCall)
    ensures
        held_count(calls.push(call)) == (match call {
            ControlCall::Press => if held_count(calls) < u64::MAX {
                held_count(calls) + 1
            } else {
                held_count(calls) as int
            },
            ControlCall::Up => if held_count(calls) > 0 {
                held_count(calls) - 1
            } else {
                0
            },
            ControlCall::Released => 0,
            _ => held_count(calls) as int,
        }),
{
    assert(calls.push(call).drop_last() =~= calls);
}

proof fn lemma_control_questions_count_nothing(calls: ControlLog, answers: ControlLog)
    ensures
        held_count(control_checked(calls, answers).0) == held_count(calls),
{
    let stopping = answers[calls.len() as int] == ControlCall::Stopping(true);
    let asked = calls.push(ControlCall::Stopping(stopping));
    lemma_push_counts(calls, ControlCall::Stopping(stopping));
    let admits = answers[asked.len() as int] == ControlCall::Admits(true);
    lemma_push_counts(asked, ControlCall::Admits(admits));
}

/// A step names one kind of action, and a failed post is noted under its own, but for Windows, whose
/// injector notes its steps itself.
pub proof fn law_a_failed_post_names_its_step(
    steps: DestinationSteps,
    one: DestinationAction,
    other: DestinationAction,
)
    ensures
        step_of(one) == step_of(other) ==> (one is MoveTo <==> other is MoveTo) && (one is Key
            <==> other is Key) && (one is Button <==> other is Button) && (one is Scroll
            <==> other is Scroll) && (one is ReleaseAll <==> other is ReleaseAll) && (one is Gesture
            <==> other is Gesture) && (one is System <==> other is System),
        steps.posted(one, true) == steps,
        steps.posted(one, false).platform == steps.platform,
        steps.posted(one, false).last == (if steps.platform == Platform::Windows {
            steps.last
        } else {
            step_of(one)
        }),
{
}

/// The surroundings hold exactly where nothing stops, the permission is granted and the displays are
/// those of the session; a change of the displays is the only fault that is not the destination's,
/// and each fault has a step of its own.
pub proof fn law_when_the_surroundings_hold(
    stopping: bool,
    permission: Permission,
    displays_hold: bool,
)
    ensures
        environment_verdict(stopping, permission, displays_hold) is Ok <==> !stopping && permission
            == Permission::Granted && displays_hold,
        environment_verdict(stopping, permission, displays_hold) matches Err(fault) ==> (fault.1
            == EnvironmentFailure::DisplaysChanged <==> !stopping && permission
            == Permission::Granted) && (fault.0 == 5 <==> stopping) && (fault.0 == 6 <==> !stopping
            && permission == Permission::Denied) && (fault.0 == 7 <==> !stopping && permission
            == Permission::Unreadable) && (fault.0 == 8 <==> fault.1
            == EnvironmentFailure::DisplaysChanged),
{
}

/// The hash takes one byte after the other, in their order: each is mixed in before the product is
/// taken, of which the lowest eight bytes stay.
pub proof fn law_the_hash_takes_byte_after_byte(bytes: Seq<u8>, next: u8)
    ensures
        fnv(Seq::empty()) == 0xcbf2_9ce4_8422_2325,
        fnv(bytes.push(next)) == ((fnv(bytes) ^ (next as u64)) * 0x0000_0100_0000_01b3)
            % 0x1_0000_0000_0000_0000,
{
    assert(bytes.push(next).drop_last() =~= bytes);
}

/// The little-endian bytes of a number are eight, and backwards they are its big-endian ones.
pub proof fn law_the_lowest_byte_comes_first(value: u64)
    ensures
        le_bytes(value).len() == 8,
        le_bytes(value)[0] == value % 0x100,
        from_be(le_bytes(value).reverse()) == value,
{
    lemma_be_limits();
    lemma_to_be_len(value as nat, 8);
    lemma_from_to_be(value as nat, 8);
    assert(le_bytes(value).reverse() =~= to_be(value as nat, 8));
    reveal_with_fuel(to_be, 2);
}

/// A display is described as the platform has it, under its own name or, where it has none, under its
/// number; two platform displays of the same id are described under the same id on one device.
pub proof fn law_a_display_is_described_as_it_is(
    display: NativeDisplay,
    device: DeviceId,
    described: DisplayDescription,
    other: NativeDisplay,
    other_described: DisplayDescription,
)
    requires
        display.is_described(device, described),
        other.is_described(device, other_described),
    ensures
        display.name matches Some(name) ==> described.name@ == name@,
        display.name is None ==> described.name@ == "Display "@ + ascii(
            decimal(display.id.0 as nat),
        ),
        described.native_width == display.native_width,
        described.native_height == display.native_height,
        described.logical_origin == display.logical_origin,
        described.logical_size == display.logical_size,
        described.logical_end == display.logical_end,
        described.scale_factor == display.scale_factor,
        described.is_primary == display.is_primary,
        display.id == other.id ==> described.id == other_described.id,
{
}

} // verus!
