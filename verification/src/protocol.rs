//! The session protocol's values as this crate reads them.
//!
//! Framing, rate limits and sequence gates belong to the protocol crate. What stands here is the
//! content of a decoded frame, with every coordinate in an exact integer form.

use crate::bytes::{bytes_precede, precedes, same_bytes};
use vstd::prelude::*;

verus! {

/// Names one computer. Its order decides which side of a pair is the lower one.
#[derive(Clone, Copy, Debug, PartialEq, Eq, PartialOrd, Ord)]
pub struct DeviceId(pub [u8; 16]);

impl DeviceId {
    pub fn same(&self, other: &DeviceId) -> (same: bool)
        ensures
            same == (self.0@ == other.0@),
    {
        same_bytes(self.0.as_slice(), other.0.as_slice())
    }

    /// Whether this computer is the lower one of the two.
    pub fn is_lower_than(&self, other: &DeviceId) -> (lower: bool)
        ensures
            lower == precedes(self.0@, other.0@),
    {
        bytes_precede(self.0.as_slice(), other.0.as_slice())
    }
}

#[derive(Clone, Copy, Debug, PartialEq, Eq, Structural)]
pub struct DisplayId(pub u64);

#[derive(Clone, Copy, Debug, PartialEq, Eq, Structural)]
pub enum Platform {
    Windows,
    MacOs,
}

/// A number that is not zero and never goes back within one session.
#[derive(Clone, Copy, Debug, PartialEq, Eq, Structural)]
pub struct SessionEpoch {
    pub value: u64,
}

impl SessionEpoch {
    /// Zero names no epoch.
    pub open spec fn wf(self) -> bool {
        self.value != 0
    }

    pub fn new(value: u64) -> (epoch: Option<SessionEpoch>)
        ensures
            value == 0 <==> epoch is None,
            epoch matches Some(made) ==> made.value == value,
    {
        if value == 0 {
            None
        } else {
            Some(SessionEpoch { value })
        }
    }

    pub fn get(self) -> (value: u64)
        ensures
            value == self.value,
    {
        self.value
    }
}

/// A coordinate as the sign and magnitude bits of an IEEE 754 double: the magnitude's bit pattern
/// as a number, negated for a negative value. Two coordinates compare as the numbers they stand
/// for, and both zeros are one.
pub type Coordinate = i64;

/// The coordinate of the number with the other sign. The least integer stands for no number, and
/// is taken to the greatest, which stands for none either.
pub open spec fn negated(coordinate: Coordinate) -> Coordinate {
    if coordinate == i64::MIN {
        i64::MAX
    } else {
        (-coordinate) as i64
    }
}

pub fn negate(coordinate: Coordinate) -> (opposite: Coordinate)
    ensures
        opposite == negated(coordinate),
{
    if coordinate == i64::MIN {
        i64::MAX
    } else {
        -coordinate
    }
}

/// The magnitude bits of infinity. Every finite coordinate lies strictly within it on either side.
pub const INFINITE_COORDINATE: Coordinate = 0x7ff0_0000_0000_0000;

/// The magnitude bits of one million.
pub const MILLION_COORDINATE: Coordinate = 0x412e_8480_0000_0000;

pub open spec fn is_finite_coordinate(value: Coordinate) -> bool {
    -INFINITE_COORDINATE < value < INFINITE_COORDINATE
}

/// Neither infinite nor not a number.
pub fn finite(value: Coordinate) -> (result: bool)
    ensures
        result == is_finite_coordinate(value),
{
    -INFINITE_COORDINATE < value && value < INFINITE_COORDINATE
}

#[derive(Clone, Copy, Debug, PartialEq, Eq, Structural)]
pub struct Point {
    pub x: Coordinate,
    pub y: Coordinate,
}

#[derive(Clone, Debug, PartialEq, Eq)]
pub struct DisplayDescription {
    pub id: DisplayId,
    pub name: String,
    pub native_width: u32,
    pub native_height: u32,
    pub logical_origin: Point,
    pub logical_size: Point,
    /// The origin plus the size, added as floating-point numbers.
    pub logical_end: Point,
    pub scale_factor: Coordinate,
    pub is_primary: bool,
    /// What the platform knows of the monitor behind the display, as it says it.
    pub monitor: Option<String>,
}

/// What one display's geometry is, apart from its name and rank.
pub struct Geometry {
    pub id: DisplayId,
    pub native_width: u32,
    pub native_height: u32,
    pub logical_origin: Point,
    pub logical_size: Point,
    pub scale_factor: Coordinate,
}

impl DisplayDescription {
    pub open spec fn geometry(self) -> Geometry {
        Geometry {
            id: self.id,
            native_width: self.native_width,
            native_height: self.native_height,
            logical_origin: self.logical_origin,
            logical_size: self.logical_size,
            scale_factor: self.scale_factor,
        }
    }

    /// Inside, the near edges counted in and the far ones out, with both coordinates finite.
    pub open spec fn holds_point(self, point: Point) -> bool {
        &&& is_finite_coordinate(point.x)
        &&& is_finite_coordinate(point.y)
        &&& self.logical_origin.x <= point.x < self.logical_end.x
        &&& self.logical_origin.y <= point.y < self.logical_end.y
    }

    pub fn contains(&self, point: Point) -> (inside: bool)
        ensures
            inside == self.holds_point(point),
    {
        finite(point.x) && finite(point.y) && self.logical_origin.x <= point.x && point.x
            < self.logical_end.x && self.logical_origin.y <= point.y && point.y < self.logical_end.y
    }

    /// A copy of the description.
    pub fn duplicate(&self) -> (copy: DisplayDescription)
        ensures
            copy == *self,
    {
        DisplayDescription {
            id: self.id,
            name: self.name.clone(),
            native_width: self.native_width,
            native_height: self.native_height,
            logical_origin: self.logical_origin,
            logical_size: self.logical_size,
            logical_end: self.logical_end,
            scale_factor: self.scale_factor,
            is_primary: self.is_primary,
            monitor: match &self.monitor {
                Some(monitor) => Some(monitor.clone()),
                None => None,
            },
        }
    }

    fn same_shape(&self, other: &DisplayDescription) -> (same: bool)
        ensures
            same == (self.geometry() == other.geometry()),
    {
        self.id == other.id && self.native_width == other.native_width && self.native_height
            == other.native_height && self.logical_origin == other.logical_origin
            && self.logical_size == other.logical_size && self.scale_factor == other.scale_factor
    }
}

/// The first display that carries `id`.
pub open spec fn find_display(displays: Seq<DisplayDescription>, id: DisplayId) -> Option<
    DisplayDescription,
>
    decreases displays.len(),
{
    if displays.len() == 0 {
        None
    } else if displays[0].id == id {
        Some(displays[0])
    } else {
        find_display(displays.drop_first(), id)
    }
}

#[derive(Clone, Debug, PartialEq, Eq)]
pub struct DisplayTopology {
    pub displays: Vec<DisplayDescription>,
}

impl View for DisplayTopology {
    type V = Seq<DisplayDescription>;

    open spec fn view(&self) -> Seq<DisplayDescription> {
        self.displays@
    }
}

/// Two lists describe the same displays, in the same order, whatever their names.
pub open spec fn same_geometries(a: Seq<DisplayDescription>, b: Seq<DisplayDescription>) -> bool {
    &&& a.len() == b.len()
    &&& forall|i: int| 0 <= i < a.len() ==> (#[trigger] a[i]).geometry() == b[i].geometry()
}

impl DisplayTopology {
    pub fn new(displays: Vec<DisplayDescription>) -> (topology: DisplayTopology)
        ensures
            topology@ == displays@,
    {
        DisplayTopology { displays }
    }

    /// A copy of the topology.
    pub fn duplicate(&self) -> (copy: DisplayTopology)
        ensures
            copy@ == self@,
    {
        let mut displays: Vec<DisplayDescription> = Vec::new();
        let mut index: usize = 0;
        while index < self.displays.len()
            invariant
                index <= self.displays@.len(),
                displays@ == self.displays@.take(index as int),
            decreases self.displays@.len() - index,
        {
            displays.push(self.displays[index].duplicate());
            assert(displays@ =~= self.displays@.take(index + 1));
            index = index + 1;
        }
        assert(self.displays@.take(index as int) =~= self.displays@);
        DisplayTopology { displays }
    }

    pub fn same_geometry(&self, other: &DisplayTopology) -> (same: bool)
        ensures
            same == same_geometries(self@, other@),
    {
        if self.displays.len() != other.displays.len() {
            return false;
        }
        let mut index: usize = 0;
        while index < self.displays.len()
            invariant
                index <= self.displays@.len() == other.displays@.len(),
                forall|i: int|
                    0 <= i < index ==> (#[trigger] self.displays@[i]).geometry()
                        == other.displays@[i].geometry(),
            decreases self.displays@.len() - index,
        {
            if !self.displays[index].same_shape(&other.displays[index]) {
                return false;
            }
            index = index + 1;
        }
        true
    }

    /// The index of the first display that carries `id`.
    pub fn position(&self, id: DisplayId) -> (found: Option<usize>)
        ensures
            match found {
                Some(index) => index < self@.len() && find_display(self@, id) == Some(
                    self@[index as int],
                ),
                None => find_display(self@, id) is None,
            },
    {
        let mut index: usize = 0;
        assert(self@.skip(0) =~= self@);
        while index < self.displays.len()
            invariant
                index <= self.displays@.len(),
                self@ == self.displays@,
                find_display(self@, id) == find_display(self@.skip(index as int), id),
            decreases self.displays@.len() - index,
        {
            assert(self@.skip(index as int).drop_first() =~= self@.skip(index + 1));
            if self.displays[index].id == id {
                return Some(index);
            }
            index = index + 1;
        }
        None
    }
}

#[derive(Clone, Copy, Debug, PartialEq, Eq, Structural)]
pub struct Capabilities(pub u32);

/// Which side of a pair may control the other.
#[derive(Clone, Copy, Debug, PartialEq, Eq, Structural)]
pub struct ControlPermissions {
    pub lower_controls_higher: bool,
    pub higher_controls_lower: bool,
}

impl ControlPermissions {
    pub open spec fn is_both(self) -> bool {
        self.lower_controls_higher && self.higher_controls_lower
    }

    pub fn both() -> (permissions: ControlPermissions)
        ensures
            permissions.is_both(),
    {
        ControlPermissions { lower_controls_higher: true, higher_controls_lower: true }
    }
}

#[derive(Clone, Copy, Debug, PartialEq, Eq, Structural)]
pub enum SessionPurpose {
    Share,
    Setup,
    Configure,
}

/// Which direction of a session a frame belongs to, or the connection itself.
#[derive(Clone, Copy, Debug, PartialEq, Eq, Structural)]
pub enum FrameScope {
    Connection,
    LowerControlsHigher,
    HigherControlsLower,
}

#[derive(Clone, Copy, Debug, PartialEq, Eq, Structural)]
pub enum DeliveryClass {
    Reliable,
    MotionDatagram,
}

/// A USB HID keyboard usage.
#[derive(Clone, Copy, Debug, PartialEq, Eq, Structural)]
pub struct HidUsage(pub u16);

/// One bit for each of the eight modifier keys, from usage 0xe0 up.
#[derive(Clone, Copy, Debug, PartialEq, Eq, Structural)]
pub struct ModifierState(pub u8);

#[derive(Clone, Copy, Debug, PartialEq, Eq, Structural)]
pub enum MouseButton {
    Left,
    Right,
    Middle,
    Back,
    Forward,
}

impl MouseButton {
    pub open spec fn place(self) -> int {
        match self {
            MouseButton::Left => 0,
            MouseButton::Right => 1,
            MouseButton::Middle => 2,
            MouseButton::Back => 3,
            MouseButton::Forward => 4,
        }
    }

    pub fn index(self) -> (index: usize)
        ensures
            index == self.place(),
            index < 5,
    {
        match self {
            MouseButton::Left => 0,
            MouseButton::Right => 1,
            MouseButton::Middle => 2,
            MouseButton::Back => 3,
            MouseButton::Forward => 4,
        }
    }
}

#[derive(Clone, Copy, Debug, PartialEq, Eq, Structural)]
pub enum GesturePhase {
    Began,
    Changed,
    Ended,
    /// Any other phase, by the code it goes under, and whether it ends the gesture.
    Other { code: u64, ends: bool },
}

impl GesturePhase {
    /// The gesture is over.
    pub open spec fn ends_gesture(self) -> bool {
        match self {
            GesturePhase::Ended => true,
            GesturePhase::Other { ends, .. } => ends,
            _ => false,
        }
    }

    pub fn is_terminal(self) -> (terminal: bool)
        ensures
            terminal == self.ends_gesture(),
    {
        match self {
            GesturePhase::Ended => true,
            GesturePhase::Other { ends, .. } => ends,
            _ => false,
        }
    }
}

/// A pinch may hold a modifier key; no other pointer gesture does.
#[derive(Clone, Copy, Debug, PartialEq, Eq, Structural)]
pub enum PointerGesture {
    Magnify { phase: GesturePhase, delta: Coordinate },
    /// Any other gesture, by the code it goes under.
    Other(u64),
}

#[derive(Clone, Copy, Debug, PartialEq, Eq, Structural)]
pub enum SystemGesture {
    Overview,
    Search,
    /// Any other gesture, by the code it goes under.
    Other(u64),
}

#[derive(Clone, Copy, Debug, PartialEq, Eq)]
pub struct Hello {
    pub device_id: DeviceId,
    pub platform: Platform,
    pub protocol_version: u16,
    pub capabilities: Capabilities,
}

#[derive(Clone, Copy, Debug, PartialEq, Eq, Structural)]
pub struct SessionSetup {
    pub control: ControlPermissions,
    pub purpose: SessionPurpose,
}

#[derive(Clone, Copy, Debug, PartialEq, Eq, Structural)]
pub struct Key {
    pub usage: HidUsage,
    /// Whether the usage is one the protocol admits.
    pub usage_is_valid: bool,
    pub is_down: bool,
    pub repeat: bool,
    pub modifiers: ModifierState,
}

#[derive(Clone, Copy, Debug, PartialEq, Eq, Structural)]
pub struct Button {
    pub button: MouseButton,
    pub is_down: bool,
    pub click_count: u8,
}

#[derive(Clone, Copy, Debug, PartialEq, Eq, Structural)]
pub struct Scroll {
    pub horizontal: Coordinate,
    pub vertical: Coordinate,
}

#[derive(Clone, Copy, Debug, PartialEq, Eq, Structural)]
pub enum Motion {
    Absolute(Point),
    Relative(Point),
}

#[derive(Clone, Debug, PartialEq, Eq)]
pub enum Message {
    Hello(Hello),
    DisplayTopology(DisplayTopology),
    SessionSetup(SessionSetup),
    SessionReady,
    Ping(u64),
    Pong(u64),
    ActivateDisplayAt { display_id: DisplayId, position: Point },
    ActivationAck(DisplayId),
    Key(Key),
    Button(Button),
    Scroll(Scroll),
    Motion(Motion),
    Gesture(PointerGesture),
    SystemGesture(SystemGesture),
    ReleaseAll,
    ReleaseAck,
    Disconnect,
    Error,
}

impl Message {
    /// A liveness challenge or the reply to one.
    pub open spec fn is_heartbeat_message(self) -> bool {
        self is Ping || self is Pong
    }

    /// Something a user did with a keyboard or a pointer.
    pub open spec fn is_input_message(self) -> bool {
        ||| self is Key
        ||| self is Button
        ||| self is Motion
        ||| self is Scroll
        ||| self is Gesture
        ||| self is SystemGesture
    }

    pub fn is_heartbeat(&self) -> (heartbeat: bool)
        ensures
            heartbeat == self.is_heartbeat_message(),
    {
        match self {
            Message::Ping(_) | Message::Pong(_) => true,
            _ => false,
        }
    }

    pub fn is_input(&self) -> (input: bool)
        ensures
            input == self.is_input_message(),
    {
        match self {
            Message::Key(_)
            | Message::Button(_)
            | Message::Motion(_)
            | Message::Scroll(_)
            | Message::Gesture(_)
            | Message::SystemGesture(_) => true,
            _ => false,
        }
    }
}

#[derive(Clone, Debug, PartialEq, Eq)]
pub struct Frame {
    pub scope: FrameScope,
    pub epoch: SessionEpoch,
    pub sequence: u64,
    pub delivery: DeliveryClass,
    pub message: Message,
}

impl Frame {
    /// A reliably delivered frame on the connection itself.
    pub fn new(epoch: SessionEpoch, sequence: u64, message: Message) -> (frame: Frame)
        ensures
            frame == (Frame {
                scope: FrameScope::Connection,
                epoch,
                sequence,
                delivery: DeliveryClass::Reliable,
                message,
            }),
    {
        Frame {
            scope: FrameScope::Connection,
            epoch,
            sequence,
            delivery: DeliveryClass::Reliable,
            message,
        }
    }
}

/// The opposite of a coordinate is as far on the other side; only the lowest one has none, and gets
/// the highest.
pub proof fn law_a_coordinate_has_its_opposite(coordinate: Coordinate)
    ensures
        coordinate != i64::MIN ==> coordinate + negated(coordinate) == 0,
        coordinate == i64::MIN ==> negated(coordinate) == i64::MAX,
{
}

/// A display is found exactly where one of that id is there, and the first such is the one.
pub proof fn law_the_first_display_is_found(
    displays: Seq<DisplayDescription>,
    id: DisplayId,
    place: int,
)
    requires
        0 <= place <= displays.len(),
        forall|i: int| 0 <= i < place ==> (#[trigger] displays[i]).id != id,
        place < displays.len() ==> displays[place].id == id,
    ensures
        find_display(displays, id) == (if place < displays.len() {
            Some(displays[place])
        } else {
            None
        }),
    decreases displays.len(),
{
    if place > 0 {
        let rest = displays.drop_first();
        assert forall|i: int| 0 <= i < place - 1 implies (#[trigger] rest[i]).id != id by {
            assert(rest[i] == displays[i + 1]);
        }
        if place < displays.len() {
            assert(rest[place - 1] == displays[place]);
        }
        law_the_first_display_is_found(rest, id, place - 1);
    }
}

/// Displays have the same geometry exactly where they are as many and each is of the same id, size,
/// place and scale as the other one at its place; what they are called does not count, nor which is
/// the primary one.
pub proof fn law_what_makes_the_same_geometry(
    a: Seq<DisplayDescription>,
    b: Seq<DisplayDescription>,
    place: int,
)
    ensures
        same_geometries(a, a),
        same_geometries(a, b) == same_geometries(b, a),
        same_geometries(a, b) ==> a.len() == b.len(),
        same_geometries(a, b) && 0 <= place < a.len() ==> a[place].id == b[place].id
            && a[place].native_width == b[place].native_width && a[place].native_height
            == b[place].native_height && a[place].logical_origin == b[place].logical_origin
            && a[place].logical_size == b[place].logical_size && a[place].scale_factor
            == b[place].scale_factor,
        a.len() == b.len() && 0 <= place < a.len() && a[place].id == b[place].id
            && a[place].native_width == b[place].native_width && a[place].native_height
            == b[place].native_height && a[place].logical_origin == b[place].logical_origin
            && a[place].logical_size == b[place].logical_size && a[place].scale_factor
            == b[place].scale_factor ==> a[place].geometry() == b[place].geometry(),
        a.len() == b.len() && !same_geometries(a, b) ==> exists|i: int|
            0 <= i < a.len() && (#[trigger] a[i]).geometry() != b[i].geometry(),
{
    if same_geometries(a, b) {
        assert forall|i: int| 0 <= i < b.len() implies (#[trigger] b[i]).geometry()
            == a[i].geometry() by {
            assert(a[i].geometry() == b[i].geometry());
        }
    }
    if same_geometries(b, a) {
        assert forall|i: int| 0 <= i < a.len() implies (#[trigger] a[i]).geometry()
            == b[i].geometry() by {
            assert(b[i].geometry() == a[i].geometry());
        }
    }
    if 0 <= place < a.len() && same_geometries(a, b) {
        assert(a[place].geometry() == b[place].geometry());
    }
}

/// Every button has a place of its own among the five.
pub proof fn law_every_button_has_its_place(one: MouseButton, other: MouseButton)
    ensures
        0 <= one.place() < 5,
        one.place() == other.place() ==> one == other,
{
}

/// What a user does is input, and what the computers tell each other is not; a heartbeat is never
/// input.
pub proof fn law_which_messages_are_input(message: Message)
    ensures
        message.is_input_message() <==> message is Key || message is Button || message is Motion
            || message is Scroll || message is Gesture || message is SystemGesture,
        message.is_heartbeat_message() <==> message is Ping || message is Pong,
        !(message.is_input_message() && message.is_heartbeat_message()),
{
}

} // verus!
