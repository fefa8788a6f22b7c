//! The virtual game controller on Linux: which button or axis a control
//! name drives, how its reading is scaled, and the input events that a
//! batch of readings becomes.

use vstd::prelude::*;
use crate::text::{chars_of, contains_at, contains_seq, equals_at};

verus! {

/// The buttons the virtual controller offers, named as the kernel's input
/// codes name them.
#[derive(Clone, Copy, Debug, PartialEq, Eq, Structural)]
pub enum EvKey {
    South,
    Right,
    East,
    North,
    Tl,
    Tr,
    Select,
    Start,
    ThumbL,
    ThumbR,
    DpadUp,
    DpadDown,
    DpadLeft,
    DpadRight,
}

/// The absolute axes the virtual controller offers.
#[derive(Clone, Copy, Debug, PartialEq, Eq, Structural)]
pub enum EvAxis {
    X,
    Y,
    Rx,
    Ry,
    Z,
    Rz,
}

/// How a control's reading maps onto the device's range: a button takes
/// the reading as it is, a trigger spans 0..=255, a stick -32767..=32767.
#[derive(Clone, Copy, Debug, PartialEq, Eq, Structural)]
pub enum Scale {
    Unit,
    Trigger,
    Stick,
}

/// One input event for the virtual controller.
#[derive(Clone, Copy, Debug, PartialEq, Eq, Structural)]
pub enum DeviceEvent {
    /// A button's new value.
    Key(EvKey, i32),
    /// An axis's new position.
    Abs(EvAxis, i32),
    /// The end of a batch of changes.
    Sync,
}

/// The button that a control name drives.
pub open spec fn key_of(name: Seq<char>) -> Option<EvKey> {
    if name == "a"@ {
        Some(EvKey::South)
    } else if name == "b"@ {
        Some(EvKey::Right)
    } else if name == "x"@ {
        Some(EvKey::East)
    } else if name == "y"@ {
        Some(EvKey::North)
    } else if name == "l1"@ {
        Some(EvKey::Tl)
    } else if name == "r1"@ {
        Some(EvKey::Tr)
    } else if name == "minus"@ {
        Some(EvKey::Select)
    } else if name == "plus"@ {
        Some(EvKey::Start)
    } else if name == "l3"@ {
        Some(EvKey::ThumbL)
    } else if name == "r3"@ {
        Some(EvKey::ThumbR)
    } else if name == "up"@ {
        Some(EvKey::DpadUp)
    } else if name == "down"@ {
        Some(EvKey::DpadDown)
    } else if name == "left"@ {
        Some(EvKey::DpadLeft)
    } else if name == "right"@ {
        Some(EvKey::DpadRight)
    } else {
        None
    }
}

/// The axis that a control name drives.
pub open spec fn axis_of(name: Seq<char>) -> Option<EvAxis> {
    if name == "left_y"@ {
        Some(EvAxis::Y)
    } else if name == "left_x"@ {
        Some(EvAxis::X)
    } else if name == "right_y"@ {
        Some(EvAxis::Ry)
    } else if name == "right_x"@ {
        Some(EvAxis::Rx)
    } else if name == "left_trigger"@ {
        Some(EvAxis::Z)
    } else if name == "right_trigger"@ {
        Some(EvAxis::Rz)
    } else {
        None
    }
}

/// How the reading of a control is scaled, for the names that drive
/// anything: buttons as they are, axes whose name holds "trigger" as
/// triggers, the other axes as sticks.
pub open spec fn scale_of(name: Seq<char>) -> Option<Scale> {
    if key_of(name) is Some {
        Some(Scale::Unit)
    } else if axis_of(name) is Some {
        if contains_seq(name, "trigger"@) {
            Some(Scale::Trigger)
        } else {
            Some(Scale::Stick)
        }
    } else {
        None
    }
}

/// The event that one reading becomes, if its name drives anything.
pub open spec fn reading_event(name: Seq<char>, value: i32) -> Option<DeviceEvent> {
    match key_of(name) {
        Some(k) => Some(DeviceEvent::Key(k, value)),
        None => match axis_of(name) {
            Some(a) => Some(DeviceEvent::Abs(a, value)),
            None => None,
        },
    }
}

/// The events of a batch of readings, in order, without the closing sync.
pub open spec fn reading_events(readings: Seq<(Seq<char>, i32)>) -> Seq<DeviceEvent>
    decreases readings.len(),
{
    if readings.len() == 0 {
        seq![]
    } else {
        let prev = reading_events(readings.drop_last());
        match reading_event(readings.last().0, readings.last().1) {
            Some(e) => prev.push(e),
            None => prev,
        }
    }
}

/// A batch of readings yields at most one event per reading and no sync
/// of its own, so the sync that closes the batch is its only one.
pub proof fn law_single_sync_per_batch(readings: Seq<(Seq<char>, i32)>)
    ensures
        reading_events(readings).len() <= readings.len(),
        forall|i: int|
            0 <= i < reading_events(readings).len() ==> #[trigger] reading_events(readings)[i]
                != DeviceEvent::Sync,
    decreases readings.len(),
{
    if readings.len() > 0 {
        law_single_sync_per_batch(readings.drop_last());
    }
}

/// The readings as pairs of a name's characters and a value.
pub open spec fn readings_view(readings: Seq<(String, i32)>) -> Seq<(Seq<char>, i32)> {
    readings.map_values(|r: (String, i32)| (r.0@, r.1))
}

/// Whether the characters `name` spell the word `word`.
fn is_word(name: &Vec<char>, word: &str) -> (b: bool)
    ensures
        b == (name@ == word@),
{
    let w = chars_of(word);
    assert(name@.subrange(0, name.len() as int) =~= name@);
    equals_at(name, 0, name.len(), &w)
}

fn key_of_chars(n: &Vec<char>) -> (r: Option<EvKey>)
    ensures
        r == key_of(n@),
{
    if is_word(n, "a") {
        Some(EvKey::South)
    } else if is_word(n, "b") {
        Some(EvKey::Right)
    } else if is_word(n, "x") {
        Some(EvKey::East)
    } else if is_word(n, "y") {
        Some(EvKey::North)
    } else if is_word(n, "l1") {
        Some(EvKey::Tl)
    } else if is_word(n, "r1") {
        Some(EvKey::Tr)
    } else if is_word(n, "minus") {
        Some(EvKey::Select)
    } else if is_word(n, "plus") {
        Some(EvKey::Start)
    } else if is_word(n, "l3") {
        Some(EvKey::ThumbL)
    } else if is_word(n, "r3") {
        Some(EvKey::ThumbR)
    } else if is_word(n, "up") {
        Some(EvKey::DpadUp)
    } else if is_word(n, "down") {
        Some(EvKey::DpadDown)
    } else if is_word(n, "left") {
        Some(EvKey::DpadLeft)
    } else if is_word(n, "right") {
        Some(EvKey::DpadRight)
    } else {
        None
    }
}

fn axis_of_chars(n: &Vec<char>) -> (r: Option<EvAxis>)
    ensures
        r == axis_of(n@),
{
    if is_word(n, "left_y") {
        Some(EvAxis::Y)
    } else if is_word(n, "left_x") {
        Some(EvAxis::X)
    } else if is_word(n, "right_y") {
        Some(EvAxis::Ry)
    } else if is_word(n, "right_x") {
        Some(EvAxis::Rx)
    } else if is_word(n, "left_trigger") {
        Some(EvAxis::Z)
    } else if is_word(n, "right_trigger") {
        Some(EvAxis::Rz)
    } else {
        None
    }
}

/// The range an absolute axis is declared with: its resting value, its
/// bounds, fuzz, flat zone and resolution.
#[derive(Clone, Copy, Debug, PartialEq, Eq, Structural)]
pub struct Axis {
    pub code: EvAxis,
    pub value: i32,
    pub min: i32,
    pub max: i32,
    pub fuzz: i32,
    pub flat: i32,
    pub resolution: i32,
}

impl Axis {
    pub fn new(code: EvAxis, value: i32, min: i32, max: i32, fuzz: i32, flat: i32, resolution: i32) -> (r: Axis)
        ensures
            r == (Axis { code, value, min, max, fuzz, flat, resolution }),
    {
        Axis { code, value, min, max, fuzz, flat, resolution }
    }

    /// A thumb stick's axis: -32767..=32767, fuzz 16.
    pub fn new_stick(code: EvAxis) -> (r: Axis)
        ensures
            r == stick(code),
    {
        Axis::new(code, 0, -32767, 32767, 16, 0, 0)
    }

    /// A trigger's axis: 0..=255.
    pub fn new_trigger(code: EvAxis) -> (r: Axis)
        ensures
            r == trigger(code),
    {
        Axis::new(code, 0, 0, 255, 0, 0, 0)
    }

    /// The axis's value, minimum, maximum, fuzz, flat zone and resolution,
    /// in that order.
    pub fn get_abs_info(&self) -> (r: (i32, i32, i32, i32, i32, i32))
        ensures
            r == (self.value, self.min, self.max, self.fuzz, self.flat, self.resolution),
    {
        (self.value, self.min, self.max, self.fuzz, self.flat, self.resolution)
    }
}

pub open spec fn stick(code: EvAxis) -> Axis {
    Axis { code, value: 0, min: -32767i32, max: 32767, fuzz: 16, flat: 0, resolution: 0 }
}

pub open spec fn trigger(code: EvAxis) -> Axis {
    Axis { code, value: 0, min: 0, max: 255, fuzz: 0, flat: 0, resolution: 0 }
}

/// The buttons the controller is created with, in order.
pub open spec fn controller_keys() -> Seq<EvKey> {
    seq![
        EvKey::South,
        EvKey::Right,
        EvKey::East,
        EvKey::North,
        EvKey::Tl,
        EvKey::Tr,
        EvKey::Select,
        EvKey::Start,
        EvKey::ThumbL,
        EvKey::ThumbR,
        EvKey::DpadUp,
        EvKey::DpadDown,
        EvKey::DpadLeft,
        EvKey::DpadRight,
    ]
}

/// The axes the controller is created with: the two sticks, then the two
/// triggers.
pub open spec fn controller_axes() -> Seq<Axis> {
    seq![
        stick(EvAxis::X),
        stick(EvAxis::Y),
        stick(EvAxis::Rx),
        stick(EvAxis::Ry),
        trigger(EvAxis::Z),
        trigger(EvAxis::Rz),
    ]
}

pub open spec fn key_slot(k: EvKey) -> int {
    match k {
        EvKey::South => 0,
        EvKey::Right => 1,
        EvKey::East => 2,
        EvKey::North => 3,
        EvKey::Tl => 4,
        EvKey::Tr => 5,
        EvKey::Select => 6,
        EvKey::Start => 7,
        EvKey::ThumbL => 8,
        EvKey::ThumbR => 9,
        EvKey::DpadUp => 10,
        EvKey::DpadDown => 11,
        EvKey::DpadLeft => 12,
        EvKey::DpadRight => 13,
    }
}

pub open spec fn axis_slot(a: EvAxis) -> int {
    match a {
        EvAxis::X => 0,
        EvAxis::Y => 1,
        EvAxis::Rx => 2,
        EvAxis::Ry => 3,
        EvAxis::Z => 4,
        EvAxis::Rz => 5,
    }
}

/// Every control name drives a button or an axis that the controller is
/// created with, and an axis's reading is scaled to the range that axis is
/// declared with: trigger names to 0..=255, stick names to -32767..=32767.
pub proof fn law_controls_fit_the_device(name: Seq<char>)
    ensures
        key_of(name) matches Some(k) ==> 0 <= key_slot(k) < controller_keys().len()
            && controller_keys()[key_slot(k)] == k,
        key_of(name) is None ==> (axis_of(name) matches Some(a) ==> {
            &&& 0 <= axis_slot(a) < controller_axes().len()
            &&& controller_axes()[axis_slot(a)].code == a
            &&& scale_of(name) == Some(if controller_axes()[axis_slot(a)].max == 255 {
                Scale::Trigger
            } else {
                Scale::Stick
            })
        }),
{
    reveal_strlit("trigger");
    reveal_strlit("left_y");
    reveal_strlit("left_x");
    reveal_strlit("right_y");
    reveal_strlit("right_x");
    reveal_strlit("left_trigger");
    reveal_strlit("right_trigger");
    let t = "trigger"@;
    if key_of(name) is None {
        if name == "left_trigger"@ {
            assert(name.subrange(5int, 5int + t.len()) =~= t);
        } else if name == "right_trigger"@ {
            assert(name.subrange(6int, 6int + t.len()) =~= t);
        } else if name == "left_x"@ || name == "left_y"@ {
            assert(!contains_seq(name, t));
        } else if name == "right_x"@ || name == "right_y"@ {
            assert forall|i: int| 0 <= i && i + t.len() <= name.len() implies #[trigger] name.subrange(i, i + t.len()) != t by {
                assert(name.subrange(i, i + t.len())[0] != t[0]);
            }
            assert(!contains_seq(name, t));
        }
    }
}


/// How the control names are spelled, character by character.
pub proof fn lemma_control_names_spelled()
    ensures
        "a"@.len() == 1 && "a"@[0] == 'a',
        "b"@.len() == 1 && "b"@[0] == 'b',
        "x"@.len() == 1 && "x"@[0] == 'x',
        "y"@.len() == 1 && "y"@[0] == 'y',
        "l1"@.len() == 2 && "l1"@[0] == 'l' && "l1"@[1] == '1',
        "r1"@.len() == 2 && "r1"@[0] == 'r' && "r1"@[1] == '1',
        "l3"@.len() == 2 && "l3"@[0] == 'l' && "l3"@[1] == '3',
        "r3"@.len() == 2 && "r3"@[0] == 'r' && "r3"@[1] == '3',
        "minus"@.len() == 5 && "minus"@[0] == 'm' && "minus"@[1] == 'i' && "minus"@[2] == 'n' && "minus"@[3] == 'u' && "minus"@[4] == 's',
        "plus"@.len() == 4 && "plus"@[0] == 'p' && "plus"@[1] == 'l' && "plus"@[2] == 'u' && "plus"@[3] == 's',
        "up"@.len() == 2 && "up"@[0] == 'u' && "up"@[1] == 'p',
        "down"@.len() == 4 && "down"@[0] == 'd' && "down"@[1] == 'o' && "down"@[2] == 'w' && "down"@[3] == 'n',
        "left"@.len() == 4 && "left"@[0] == 'l' && "left"@[1] == 'e' && "left"@[2] == 'f' && "left"@[3] == 't',
        "right"@.len() == 5 && "right"@[0] == 'r' && "right"@[1] == 'i' && "right"@[2] == 'g' && "right"@[3] == 'h' && "right"@[4] == 't',
        "left_x"@.len() == 6 && "left_x"@[0] == 'l' && "left_x"@[1] == 'e' && "left_x"@[2] == 'f' && "left_x"@[3] == 't' && "left_x"@[4] == '_' && "left_x"@[5] == 'x',
        "left_y"@.len() == 6 && "left_y"@[0] == 'l' && "left_y"@[1] == 'e' && "left_y"@[2] == 'f' && "left_y"@[3] == 't' && "left_y"@[4] == '_' && "left_y"@[5] == 'y',
        "right_x"@.len() == 7 && "right_x"@[0] == 'r' && "right_x"@[1] == 'i' && "right_x"@[2] == 'g' && "right_x"@[3] == 'h' && "right_x"@[4] == 't' && "right_x"@[5] == '_' && "right_x"@[6] == 'x',
        "right_y"@.len() == 7 && "right_y"@[0] == 'r' && "right_y"@[1] == 'i' && "right_y"@[2] == 'g' && "right_y"@[3] == 'h' && "right_y"@[4] == 't' && "right_y"@[5] == '_' && "right_y"@[6] == 'y',
        "left_trigger"@.len() == 12 && "left_trigger"@[0] == 'l' && "left_trigger"@[1] == 'e' && "left_trigger"@[2] == 'f' && "left_trigger"@[3] == 't' && "left_trigger"@[4] == '_' && "left_trigger"@[5] == 't' && "left_trigger"@[6] == 'r' && "left_trigger"@[7] == 'i' && "left_trigger"@[8] == 'g' && "left_trigger"@[9] == 'g' && "left_trigger"@[10] == 'e' && "left_trigger"@[11] == 'r',
        "right_trigger"@.len() == 13 && "right_trigger"@[0] == 'r' && "right_trigger"@[1] == 'i' && "right_trigger"@[2] == 'g' && "right_trigger"@[3] == 'h' && "right_trigger"@[4] == 't' && "right_trigger"@[5] == '_' && "right_trigger"@[6] == 't' && "right_trigger"@[7] == 'r' && "right_trigger"@[8] == 'i' && "right_trigger"@[9] == 'g' && "right_trigger"@[10] == 'g' && "right_trigger"@[11] == 'e' && "right_trigger"@[12] == 'r',
{
    reveal_strlit("a");
    reveal_strlit("b");
    reveal_strlit("x");
    reveal_strlit("y");
    reveal_strlit("l1");
    reveal_strlit("r1");
    reveal_strlit("l3");
    reveal_strlit("r3");
    reveal_strlit("minus");
    reveal_strlit("plus");
    reveal_strlit("up");
    reveal_strlit("down");
    reveal_strlit("left");
    reveal_strlit("right");
    reveal_strlit("left_x");
    reveal_strlit("left_y");
    reveal_strlit("right_x");
    reveal_strlit("right_y");
    reveal_strlit("left_trigger");
    reveal_strlit("right_trigger");
}

/// The control name of each button of the controller.
pub open spec fn key_name(k: EvKey) -> Seq<char> {
    match k {
        EvKey::South => "a"@,
        EvKey::Right => "b"@,
        EvKey::East => "x"@,
        EvKey::North => "y"@,
        EvKey::Tl => "l1"@,
        EvKey::Tr => "r1"@,
        EvKey::Select => "minus"@,
        EvKey::Start => "plus"@,
        EvKey::ThumbL => "l3"@,
        EvKey::ThumbR => "r3"@,
        EvKey::DpadUp => "up"@,
        EvKey::DpadDown => "down"@,
        EvKey::DpadLeft => "left"@,
        EvKey::DpadRight => "right"@,
    }
}

/// The control name of each axis of the controller.
pub open spec fn axis_name(a: EvAxis) -> Seq<char> {
    match a {
        EvAxis::X => "left_x"@,
        EvAxis::Y => "left_y"@,
        EvAxis::Rx => "right_x"@,
        EvAxis::Ry => "right_y"@,
        EvAxis::Z => "left_trigger"@,
        EvAxis::Rz => "right_trigger"@,
    }
}

/// Each button is driven by its own name and by no other: a name drives
/// the button `k` exactly when it is `k`'s name.
pub proof fn law_each_button_has_one_name(name: Seq<char>, k: EvKey)
    ensures
        key_of(name) == Some(k) <==> name == key_name(k),
{
    lemma_control_names_spelled();
}

/// Each axis is driven by its own name and by no other, and an axis name
/// drives no button.
pub proof fn law_each_axis_has_one_name(name: Seq<char>, a: EvAxis)
    ensures
        axis_of(name) == Some(a) <==> name == axis_name(a),
        key_of(axis_name(a)) is None,
{
    lemma_control_names_spelled();
}

/// A reading under a button's name presses that button with the reading's
/// value, and one under an axis's name moves that axis.
pub proof fn law_reading_drives_its_control(k: EvKey, a: EvAxis, value: i32)
    ensures
        reading_events(seq![(key_name(k), value)]) == seq![DeviceEvent::Key(k, value)],
        reading_events(seq![(axis_name(a), value)]) == seq![DeviceEvent::Abs(a, value)],
{
    lemma_control_names_spelled();
    law_each_button_has_one_name(key_name(k), k);
    law_each_axis_has_one_name(axis_name(a), a);
    let e = Seq::<(Seq<char>, i32)>::empty();
    assert(reading_events(e) == Seq::<DeviceEvent>::empty());
    let rk = seq![(key_name(k), value)];
    let ra = seq![(axis_name(a), value)];
    assert(rk.drop_last() =~= e);
    assert(ra.drop_last() =~= e);
    assert(rk.last() == (key_name(k), value));
    assert(ra.last() == (axis_name(a), value));
    assert(reading_events(rk) =~= seq![DeviceEvent::Key(k, value)]);
    assert(reading_events(ra) =~= seq![DeviceEvent::Abs(a, value)]);
}

/// The controller of one client; `H` is the handle through which its
/// events reach the system.
pub struct Device<H> {
    handle: H,
}

impl<H> Device<H> {
    /// A controller that sends its events through `handle`.
    pub fn new(handle: H) -> (r: Self)
        ensures
            r.handle() == handle,
    {
        Device { handle }
    }

    pub closed spec fn handle(&self) -> H {
        self.handle
    }

    /// The handle, to send events through.
    pub fn handle_mut(&mut self) -> (r: &mut H)
        ensures
            *r == old(self).handle(),
            final(self).handle() == *final(r),
    {
        &mut self.handle
    }

    /// The buttons the controller is created with.
    pub fn keys() -> (r: Vec<EvKey>)
        ensures
            r@ == controller_keys(),
    {
        let r = vec![
            EvKey::South,
            EvKey::Right,
            EvKey::East,
            EvKey::North,
            EvKey::Tl,
            EvKey::Tr,
            EvKey::Select,
            EvKey::Start,
            EvKey::ThumbL,
            EvKey::ThumbR,
            EvKey::DpadUp,
            EvKey::DpadDown,
            EvKey::DpadLeft,
            EvKey::DpadRight,
        ];
        assert(r@ =~= controller_keys());
        r
    }

    /// The axes the controller is created with.
    pub fn axes() -> (r: Vec<Axis>)
        ensures
            r@ == controller_axes(),
    {
        let r = vec![
            Axis::new_stick(EvAxis::X),
            Axis::new_stick(EvAxis::Y),
            Axis::new_stick(EvAxis::Rx),
            Axis::new_stick(EvAxis::Ry),
            Axis::new_trigger(EvAxis::Z),
            Axis::new_trigger(EvAxis::Rz),
        ];
        assert(r@ =~= controller_axes());
        r
    }

    /// The button that the control `key` drives, if any.
    pub fn string_to_key(&self, key: &str) -> (r: Option<EvKey>)
        ensures
            r == key_of(key@),
    {
        let n = chars_of(key);
        key_of_chars(&n)
    }

    /// The axis that the control `axis` drives, if any.
    pub fn string_to_axis(&self, axis: &str) -> (r: Option<EvAxis>)
        ensures
            r == axis_of(axis@),
    {
        let n = chars_of(axis);
        axis_of_chars(&n)
    }

    /// How the reading of the control `name` is to be scaled, if the name
    /// drives anything.
    pub fn control_scale(name: &str) -> (r: Option<Scale>)
        ensures
            r == scale_of(name@),
    {
        let n = chars_of(name);
        if key_of_chars(&n).is_some() {
            Some(Scale::Unit)
        } else if axis_of_chars(&n).is_some() {
            let t = chars_of("trigger");
            if contains_at(&n, 0, n.len(), &t) {
                assert(n@.subrange(0, n.len() as int) =~= n@);
                Some(Scale::Trigger)
            } else {
                assert(n@.subrange(0, n.len() as int) =~= n@);
                Some(Scale::Stick)
            }
        } else {
            None
        }
    }

    /// The events that a batch of scaled readings becomes: one per reading
    /// whose name drives a button or an axis, in order, then a sync.
    pub fn set_controls(&self, readings: &Vec<(String, i32)>) -> (r: Vec<DeviceEvent>)
        ensures
            r@ == reading_events(readings_view(readings@)).push(DeviceEvent::Sync),
    {
        let mut events: Vec<DeviceEvent> = Vec::new();
        let mut k: usize = 0;
        while k < readings.len()
            invariant
                k <= readings.len(),
                events@ == reading_events(readings_view(readings@).take(k as int)),
            decreases readings.len() - k,
        {
            let ghost all = readings_view(readings@);
            assert(all.take(k + 1).drop_last() =~= all.take(k as int));
            assert(all.take(k + 1).last() == all[k as int]);
            let n = chars_of(readings[k].0.as_str());
            let value = readings[k].1;
            match key_of_chars(&n) {
                Some(key) => events.push(DeviceEvent::Key(key, value)),
                None => match axis_of_chars(&n) {
                    Some(axis) => events.push(DeviceEvent::Abs(axis, value)),
                    None => {},
                },
            }
            k = k + 1;
        }
        assert(readings_view(readings@).take(readings.len() as int) =~= readings_view(readings@));
        events.push(DeviceEvent::Sync);
        events
    }
}

} // verus!
