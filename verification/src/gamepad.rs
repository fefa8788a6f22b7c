//! The virtual game controller on Windows, an emulated wired Xbox 360
//! pad: the last value each control was set to, and the report that the
//! pad is sent.

use vstd::prelude::*;
use crate::device::{lemma_control_names_spelled, readings_view, Scale};
use crate::text::{chars_of, contains_at, contains_seq, equals_at};

verus! {

/// The buttons of the emulated pad, in the order reports list them.
#[derive(Clone, Copy, Debug, PartialEq, Eq, Structural)]
pub enum XButton {
    A,
    B,
    X,
    Y,
    Lb,
    Rb,
    LThumb,
    RThumb,
    Back,
    Start,
    Up,
    Down,
    Left,
    Right,
}

/// The axes of the emulated pad.
#[derive(Clone, Copy, Debug, PartialEq, Eq, Structural)]
pub enum XAxis {
    LeftThumbX,
    LeftThumbY,
    RightThumbX,
    RightThumbY,
    LeftTrigger,
    RightTrigger,
}

pub open spec fn button_index(b: XButton) -> int {
    match b {
        XButton::A => 0,
        XButton::B => 1,
        XButton::X => 2,
        XButton::Y => 3,
        XButton::Lb => 4,
        XButton::Rb => 5,
        XButton::LThumb => 6,
        XButton::RThumb => 7,
        XButton::Back => 8,
        XButton::Start => 9,
        XButton::Up => 10,
        XButton::Down => 11,
        XButton::Left => 12,
        XButton::Right => 13,
    }
}

pub open spec fn button_at(i: int) -> XButton {
    if i == 0 {
        XButton::A
    } else if i == 1 {
        XButton::B
    } else if i == 2 {
        XButton::X
    } else if i == 3 {
        XButton::Y
    } else if i == 4 {
        XButton::Lb
    } else if i == 5 {
        XButton::Rb
    } else if i == 6 {
        XButton::LThumb
    } else if i == 7 {
        XButton::RThumb
    } else if i == 8 {
        XButton::Back
    } else if i == 9 {
        XButton::Start
    } else if i == 10 {
        XButton::Up
    } else if i == 11 {
        XButton::Down
    } else if i == 12 {
        XButton::Left
    } else {
        XButton::Right
    }
}

pub open spec fn axis_index(a: XAxis) -> int {
    match a {
        XAxis::LeftThumbX => 0,
        XAxis::LeftThumbY => 1,
        XAxis::RightThumbX => 2,
        XAxis::RightThumbY => 3,
        XAxis::LeftTrigger => 4,
        XAxis::RightTrigger => 5,
    }
}

/// The button that a control name drives on the pad.
pub open spec fn xkey_of(name: Seq<char>) -> Option<XButton> {
    if name == "a"@ {
        Some(XButton::A)
    } else if name == "b"@ {
        Some(XButton::B)
    } else if name == "x"@ {
        Some(XButton::X)
    } else if name == "y"@ {
        Some(XButton::Y)
    } else if name == "l1"@ {
        Some(XButton::Lb)
    } else if name == "r1"@ {
        Some(XButton::Rb)
    } else if name == "l3"@ {
        Some(XButton::LThumb)
    } else if name == "r3"@ {
        Some(XButton::RThumb)
    } else if name == "minus"@ {
        Some(XButton::Back)
    } else if name == "plus"@ {
        Some(XButton::Start)
    } else if name == "up"@ {
        Some(XButton::Up)
    } else if name == "down"@ {
        Some(XButton::Down)
    } else if name == "left"@ {
        Some(XButton::Left)
    } else if name == "right"@ {
        Some(XButton::Right)
    } else {
        None
    }
}

/// The axis that a control name drives on the pad.
pub open spec fn xaxis_of(name: Seq<char>) -> Option<XAxis> {
    if name == "left_y"@ {
        Some(XAxis::LeftThumbY)
    } else if name == "left_x"@ {
        Some(XAxis::LeftThumbX)
    } else if name == "right_y"@ {
        Some(XAxis::RightThumbY)
    } else if name == "right_x"@ {
        Some(XAxis::RightThumbX)
    } else if name == "left_trigger"@ {
        Some(XAxis::LeftTrigger)
    } else if name == "right_trigger"@ {
        Some(XAxis::RightTrigger)
    } else {
        None
    }
}

/// How the reading of a control is scaled before it reaches the pad.
pub open spec fn xscale_of(name: Seq<char>) -> Option<Scale> {
    if xkey_of(name) is Some {
        Some(Scale::Unit)
    } else if xaxis_of(name) is Some {
        if contains_seq(name, "trigger"@) {
            Some(Scale::Trigger)
        } else {
            Some(Scale::Stick)
        }
    } else {
        None
    }
}

/// The pad's controls: a value per button and a position per axis.
pub type PadState = (Seq<u16>, Seq<i16>);

/// The state after one reading: a button keeps the value as `u16`, an
/// axis the position as `i16`; a name that drives nothing changes nothing.
pub open spec fn pad_step(st: PadState, name: Seq<char>, value: i32) -> PadState {
    match xkey_of(name) {
        Some(b) => (st.0.update(button_index(b), value as u16), st.1),
        None => match xaxis_of(name) {
            Some(a) => (st.0, st.1.update(axis_index(a), value as i16)),
            None => st,
        },
    }
}

/// The state after a batch of readings, taken in order.
pub open spec fn pad_apply(st: PadState, readings: Seq<(Seq<char>, i32)>) -> PadState
    decreases readings.len(),
{
    if readings.len() == 0 {
        st
    } else {
        let prev = pad_apply(st, readings.drop_last());
        pad_step(prev, readings.last().0, readings.last().1)
    }
}

/// Taking two batches of readings in turn is taking them as one batch.
pub proof fn law_batches_compose(st: PadState, first: Seq<(Seq<char>, i32)>, second: Seq<(Seq<char>, i32)>)
    ensures
        pad_apply(pad_apply(st, first), second) == pad_apply(st, first + second),
    decreases second.len(),
{
    if second.len() == 0 {
        assert(first + second =~= first);
    } else {
        law_batches_compose(st, first, second.drop_last());
        assert((first + second).drop_last() =~= first + second.drop_last());
        assert((first + second).last() == second.last());
    }
}

/// Readings change values, never the number of buttons or axes.
pub proof fn lemma_shape_kept(st: PadState, readings: Seq<(Seq<char>, i32)>)
    requires
        st.0.len() == 14,
        st.1.len() == 6,
    ensures
        pad_apply(st, readings).0.len() == st.0.len(),
        pad_apply(st, readings).1.len() == st.1.len(),
    decreases readings.len(),
{
    if readings.len() > 0 {
        lemma_shape_kept(st, readings.drop_last());
    }
}

/// A control keeps the last value it was set to: after a batch whose last
/// reading names a button or an axis, that button or axis holds the
/// reading.
pub proof fn law_last_reading_wins(st: PadState, readings: Seq<(Seq<char>, i32)>, name: Seq<char>, value: i32)
    requires
        st.0.len() == 14,
        st.1.len() == 6,
    ensures
        xkey_of(name) matches Some(b) ==> pad_apply(st, readings.push((name, value))).0[button_index(b)]
            == value as u16,
        xkey_of(name) is None ==> (xaxis_of(name) matches Some(a) ==> pad_apply(st, readings.push((name, value))).1[axis_index(a)]
            == value as i16),
{
    assert(readings.push((name, value)).drop_last() =~= readings);
    lemma_shape_kept(st, readings);
}

/// Readings whose names drive nothing leave the pad as it was.
pub proof fn law_unknown_names_change_nothing(st: PadState, readings: Seq<(Seq<char>, i32)>)
    requires
        forall|i: int|
            0 <= i < readings.len() ==> xkey_of((#[trigger] readings[i]).0) is None && xaxis_of(
                readings[i].0,
            ) is None,
    ensures
        pad_apply(st, readings) == st,
    decreases readings.len(),
{
    if readings.len() > 0 {
        law_unknown_names_change_nothing(st, readings.drop_last());
        assert(readings.last() == readings[readings.len() - 1]);
    }
}

/// The control name of each button of the pad.
pub open spec fn xbutton_name(b: XButton) -> Seq<char> {
    match b {
        XButton::A => "a"@,
        XButton::B => "b"@,
        XButton::X => "x"@,
        XButton::Y => "y"@,
        XButton::Lb => "l1"@,
        XButton::Rb => "r1"@,
        XButton::LThumb => "l3"@,
        XButton::RThumb => "r3"@,
        XButton::Back => "minus"@,
        XButton::Start => "plus"@,
        XButton::Up => "up"@,
        XButton::Down => "down"@,
        XButton::Left => "left"@,
        XButton::Right => "right"@,
    }
}

/// The control name of each axis of the pad.
pub open spec fn xaxis_name(a: XAxis) -> Seq<char> {
    match a {
        XAxis::LeftThumbX => "left_x"@,
        XAxis::LeftThumbY => "left_y"@,
        XAxis::RightThumbX => "right_x"@,
        XAxis::RightThumbY => "right_y"@,
        XAxis::LeftTrigger => "left_trigger"@,
        XAxis::RightTrigger => "right_trigger"@,
    }
}

/// Each pad button is driven by its own name and by no other.
pub proof fn law_each_pad_button_has_one_name(name: Seq<char>, b: XButton)
    ensures
        xkey_of(name) == Some(b) <==> name == xbutton_name(b),
{
    lemma_control_names_spelled();
}

/// Each pad axis is driven by its own name and by no other, and an axis
/// name drives no button.
pub proof fn law_each_pad_axis_has_one_name(name: Seq<char>, a: XAxis)
    ensures
        xaxis_of(name) == Some(a) <==> name == xaxis_name(a),
        xkey_of(xaxis_name(a)) is None,
{
    lemma_control_names_spelled();
}

/// The buttons and the axes have a slot each, all different: the button
/// in the slot of `b` is `b`, and every slot holds the button of that slot.
pub proof fn law_slots_are_distinct()
    ensures
        forall|b: XButton| 0 <= #[trigger] button_index(b) < 14 && button_at(button_index(b)) == b,
        forall|i: int| 0 <= i < 14 ==> button_index(#[trigger] button_at(i)) == i,
        forall|a: XAxis, c: XAxis| #[trigger] axis_index(a) == #[trigger] axis_index(c) ==> a == c,
        forall|a: XAxis| 0 <= #[trigger] axis_index(a) < 6,
{
    assert forall|b: XButton| 0 <= #[trigger] button_index(b) < 14 && button_at(button_index(b)) == b by {
        match b {
            XButton::A => {},
            XButton::B => {},
            XButton::X => {},
            XButton::Y => {},
            XButton::Lb => {},
            XButton::Rb => {},
            XButton::LThumb => {},
            XButton::RThumb => {},
            XButton::Back => {},
            XButton::Start => {},
            XButton::Up => {},
            XButton::Down => {},
            XButton::Left => {},
            XButton::Right => {},
        }
    }
}

/// A reading under an axis's name moves that axis to the reading and
/// leaves every other axis and every button where they were.
pub proof fn law_axis_reading_moves_only_its_axis(st: PadState, a: XAxis, value: i32, other: XAxis)
    requires
        st.0.len() == 14,
        st.1.len() == 6,
    ensures
        pad_apply(st, seq![(xaxis_name(a), value)]).0 == st.0,
        pad_apply(st, seq![(xaxis_name(a), value)]).1[axis_index(other)] == if other == a {
            value as i16
        } else {
            st.1[axis_index(other)]
        },
{
    law_each_pad_axis_has_one_name(xaxis_name(a), a);
    law_slots_are_distinct();
    let r = seq![(xaxis_name(a), value)];
    assert(r.drop_last() =~= Seq::<(Seq<char>, i32)>::empty());
    assert(r.last() == (xaxis_name(a), value));
    assert(pad_apply(st, Seq::<(Seq<char>, i32)>::empty()) == st);
    assert(pad_apply(st, r) == pad_step(st, xaxis_name(a), value));
}

/// A reading under a button's name sets that button to the reading and
/// leaves every other button and every axis where they were.
pub proof fn law_button_reading_sets_only_its_button(st: PadState, b: XButton, value: i32, other: XButton)
    requires
        st.0.len() == 14,
        st.1.len() == 6,
    ensures
        pad_apply(st, seq![(xbutton_name(b), value)]).1 == st.1,
        pad_apply(st, seq![(xbutton_name(b), value)]).0[button_index(other)] == if other == b {
            value as u16
        } else {
            st.0[button_index(other)]
        },
{
    law_each_pad_button_has_one_name(xbutton_name(b), b);
    law_slots_are_distinct();
    let r = seq![(xbutton_name(b), value)];
    assert(r.drop_last() =~= Seq::<(Seq<char>, i32)>::empty());
    assert(r.last() == (xbutton_name(b), value));
    assert(button_at(button_index(other)) == other);
    assert(button_at(button_index(b)) == b);
    assert(pad_apply(st, Seq::<(Seq<char>, i32)>::empty()) == st);
    assert(pad_apply(st, r) == pad_step(st, xbutton_name(b), value));
}

proof fn lemma_pressed_among(buttons: Seq<u16>, n: int)
    requires
        buttons.len() == 14,
        0 <= n <= 14,
    ensures
        forall|b: XButton|
            #[trigger] pressed_among(buttons, n).contains(b) <==> (button_index(b) < n
                && buttons[button_index(b)] > 0),
    decreases n,
{
    law_slots_are_distinct();
    if n > 0 {
        lemma_pressed_among(buttons, n - 1);
        let prev = pressed_among(buttons, n - 1);
        assert forall|b: XButton|
            #[trigger] pressed_among(buttons, n).contains(b) <==> (button_index(b) < n
                && buttons[button_index(b)] > 0) by {
            assert(button_at(button_index(b)) == b);
            assert(button_index(button_at(n - 1)) == n - 1);
            if buttons[n - 1] > 0 {
                assert(pressed_among(buttons, n) == prev.push(button_at(n - 1)));
                assert(pressed_among(buttons, n).contains(b) <==> (prev.contains(b) || button_at(n - 1) == b)) by {
                    if pressed_among(buttons, n).contains(b) {
                        let j = choose|j: int| 0 <= j < pressed_among(buttons, n).len() && pressed_among(buttons, n)[j] == b;
                        if j < prev.len() {
                            assert(prev[j] == b);
                        }
                    }
                    if prev.contains(b) {
                        let j = choose|j: int| 0 <= j < prev.len() && prev[j] == b;
                        assert(pressed_among(buttons, n)[j] == b);
                    }
                    if button_at(n - 1) == b {
                        assert(pressed_among(buttons, n)[prev.len() as int] == b);
                    }
                }
            }
        }
    }
}

/// The report lists a button exactly when the value kept for it is not
/// zero.
pub proof fn law_report_lists_held_buttons(buttons: Seq<u16>, b: XButton)
    requires
        buttons.len() == 14,
    ensures
        pressed_among(buttons, 14).contains(b) <==> buttons[button_index(b)] > 0,
{
    law_slots_are_distinct();
    lemma_pressed_among(buttons, 14);
}

/// A name holding "trigger" that drives an axis drives a trigger and is
/// scaled as one; the other axis names drive sticks and are scaled as
/// sticks; button names are scaled as they are.
pub proof fn law_triggers_scale_as_triggers(name: Seq<char>)
    ensures
        xkey_of(name) is Some ==> xscale_of(name) == Some(Scale::Unit),
        xaxis_of(name) matches Some(a) ==> xscale_of(name) == Some(
            if a == XAxis::LeftTrigger || a == XAxis::RightTrigger {
                Scale::Trigger
            } else {
                Scale::Stick
            },
        ),
{
    lemma_control_names_spelled();
    reveal_strlit("trigger");
    let t = "trigger"@;
    if xkey_of(name) is None {
        if name == "left_trigger"@ {
            assert(name.subrange(5int, 5int + t.len()) =~= t);
        } else if name == "right_trigger"@ {
            assert(name.subrange(6int, 6int + t.len()) =~= t);
        } else if name == "left_x"@ || name == "left_y"@ {
            assert(!contains_seq(name, t));
        } else if name == "right_x"@ || name == "right_y"@ {
            assert forall|i: int| 0 <= i && i + t.len() <= name.len() implies #[trigger] name.subrange(
                i,
                i + t.len(),
            ) != t by {
                assert(name.subrange(i, i + t.len())[0] != t[0]);
            }
            assert(!contains_seq(name, t));
        }
    }
}

/// The buttons among the first `n` whose value is not zero, in order.
pub open spec fn pressed_among(buttons: Seq<u16>, n: int) -> Seq<XButton>
    decreases n,
{
    if n <= 0 {
        seq![]
    } else {
        let prev = pressed_among(buttons, n - 1);
        if buttons[n - 1] > 0 {
            prev.push(button_at(n - 1))
        } else {
            prev
        }
    }
}

/// What the pad is sent: the thumb sticks, the x axes mirrored, the
/// triggers cut to a byte, and the buttons that are held.
pub struct XReport {
    pub thumb_lx: i16,
    pub thumb_ly: i16,
    pub thumb_rx: i16,
    pub thumb_ry: i16,
    pub left_trigger: u8,
    pub right_trigger: u8,
    pub pressed: Vec<XButton>,
}

fn is_word(name: &Vec<char>, word: &str) -> (b: bool)
    ensures
        b == (name@ == word@),
{
    let w = chars_of(word);
    assert(name@.subrange(0, name.len() as int) =~= name@);
    equals_at(name, 0, name.len(), &w)
}

fn xkey_of_chars(n: &Vec<char>) -> (r: Option<XButton>)
    ensures
        r == xkey_of(n@),
{
    if is_word(n, "a") {
        Some(XButton::A)
    } else if is_word(n, "b") {
        Some(XButton::B)
    } else if is_word(n, "x") {
        Some(XButton::X)
    } else if is_word(n, "y") {
        Some(XButton::Y)
    } else if is_word(n, "l1") {
        Some(XButton::Lb)
    } else if is_word(n, "r1") {
        Some(XButton::Rb)
    } else if is_word(n, "l3") {
        Some(XButton::LThumb)
    } else if is_word(n, "r3") {
        Some(XButton::RThumb)
    } else if is_word(n, "minus") {
        Some(XButton::Back)
    } else if is_word(n, "plus") {
        Some(XButton::Start)
    } else if is_word(n, "up") {
        Some(XButton::Up)
    } else if is_word(n, "down") {
        Some(XButton::Down)
    } else if is_word(n, "left") {
        Some(XButton::Left)
    } else if is_word(n, "right") {
        Some(XButton::Right)
    } else {
        None
    }
}

fn xaxis_of_chars(n: &Vec<char>) -> (r: Option<XAxis>)
    ensures
        r == xaxis_of(n@),
{
    if is_word(n, "left_y") {
        Some(XAxis::LeftThumbY)
    } else if is_word(n, "left_x") {
        Some(XAxis::LeftThumbX)
    } else if is_word(n, "right_y") {
        Some(XAxis::RightThumbY)
    } else if is_word(n, "right_x") {
        Some(XAxis::RightThumbX)
    } else if is_word(n, "left_trigger") {
        Some(XAxis::LeftTrigger)
    } else if is_word(n, "right_trigger") {
        Some(XAxis::RightTrigger)
    } else {
        None
    }
}

fn button_slot(b: XButton) -> (r: usize)
    ensures
        r == button_index(b),
{
    match b {
        XButton::A => 0,
        XButton::B => 1,
        XButton::X => 2,
        XButton::Y => 3,
        XButton::Lb => 4,
        XButton::Rb => 5,
        XButton::LThumb => 6,
        XButton::RThumb => 7,
        XButton::Back => 8,
        XButton::Start => 9,
        XButton::Up => 10,
        XButton::Down => 11,
        XButton::Left => 12,
        XButton::Right => 13,
    }
}

fn button_of_slot(i: usize) -> (r: XButton)
    ensures
        r == button_at(i as int),
{
    if i == 0 {
        XButton::A
    } else if i == 1 {
        XButton::B
    } else if i == 2 {
        XButton::X
    } else if i == 3 {
        XButton::Y
    } else if i == 4 {
        XButton::Lb
    } else if i == 5 {
        XButton::Rb
    } else if i == 6 {
        XButton::LThumb
    } else if i == 7 {
        XButton::RThumb
    } else if i == 8 {
        XButton::Back
    } else if i == 9 {
        XButton::Start
    } else if i == 10 {
        XButton::Up
    } else if i == 11 {
        XButton::Down
    } else if i == 12 {
        XButton::Left
    } else {
        XButton::Right
    }
}

fn axis_slot(a: XAxis) -> (r: usize)
    ensures
        r == axis_index(a),
{
    match a {
        XAxis::LeftThumbX => 0,
        XAxis::LeftThumbY => 1,
        XAxis::RightThumbX => 2,
        XAxis::RightThumbY => 3,
        XAxis::LeftTrigger => 4,
        XAxis::RightTrigger => 5,
    }
}

/// The emulated pad of one client; `H` is the connection to the pad.
pub struct Gamepad<H> {
    handle: H,
    buttons: Vec<u16>,
    axes: Vec<i16>,
}

impl<H> Gamepad<H> {
    /// The pad holds one value per button and one position per axis.
    pub closed spec fn wf(&self) -> bool {
        self.buttons.len() == 14 && self.axes.len() == 6
    }

    /// The value of each button, by `button_index`, and the position of
    /// each axis, by `axis_index`.
    pub closed spec fn state(&self) -> PadState {
        (self.buttons@, self.axes@)
    }

    pub closed spec fn handle(&self) -> H {
        self.handle
    }

    /// A pad reached through `handle`, every button released and every
    /// axis at rest.
    pub fn new(handle: H) -> (r: Self)
        ensures
            r.wf(),
            r.handle() == handle,
            r.state().0 == Seq::new(14, |i: int| 0u16),
            r.state().1 == Seq::new(6, |i: int| 0i16),
    {
        let mut buttons: Vec<u16> = Vec::new();
        let mut i: usize = 0;
        while i < 14
            invariant
                i <= 14,
                buttons@ == Seq::new(i as nat, |j: int| 0u16),
            decreases 14 - i,
        {
            buttons.push(0);
            i = i + 1;
            assert(buttons@ =~= Seq::new(i as nat, |j: int| 0u16));
        }
        let mut axes: Vec<i16> = Vec::new();
        let mut i: usize = 0;
        while i < 6
            invariant
                i <= 6,
                axes@ == Seq::new(i as nat, |j: int| 0i16),
            decreases 6 - i,
        {
            axes.push(0);
            i = i + 1;
            assert(axes@ =~= Seq::new(i as nat, |j: int| 0i16));
        }
        Gamepad { handle, buttons, axes }
    }

    /// The connection to the pad, to send reports through.
    pub fn handle_mut(&mut self) -> (r: &mut H)
        requires
            old(self).wf(),
        ensures
            final(self).wf(),
            *r == old(self).handle(),
            final(self).handle() == *final(r),
            final(self).state() == old(self).state(),
    {
        &mut self.handle
    }

    /// The button that the control `key` drives on the pad, if any.
    pub fn string_to_key(&self, key: &str) -> (r: Option<XButton>)
        ensures
            r == xkey_of(key@),
    {
        let n = chars_of(key);
        xkey_of_chars(&n)
    }

    /// The axis that the control `axis` drives on the pad, if any.
    pub fn string_to_axis(&self, axis: &str) -> (r: Option<XAxis>)
        ensures
            r == xaxis_of(axis@),
    {
        let n = chars_of(axis);
        xaxis_of_chars(&n)
    }

    /// How the reading of the control `name` is to be scaled for the pad.
    pub fn control_scale(name: &str) -> (r: Option<Scale>)
        ensures
            r == xscale_of(name@),
    {
        let n = chars_of(name);
        assert(n@.subrange(0, n.len() as int) =~= n@);
        if xkey_of_chars(&n).is_some() {
            Some(Scale::Unit)
        } else if xaxis_of_chars(&n).is_some() {
            let t = chars_of("trigger");
            if contains_at(&n, 0, n.len(), &t) {
                Some(Scale::Trigger)
            } else {
                Some(Scale::Stick)
            }
        } else {
            None
        }
    }

    /// The position of an axis.
    pub fn axis(&self, a: XAxis) -> (r: i16)
        requires
            self.wf(),
        ensures
            r == self.state().1[axis_index(a)],
    {
        self.axes[axis_slot(a)]
    }

    /// Takes in a batch of scaled readings, in order.
    pub fn set_controls(&mut self, readings: &Vec<(String, i32)>)
        requires
            old(self).wf(),
        ensures
            final(self).wf(),
            final(self).state() == pad_apply(old(self).state(), readings_view(readings@)),
            final(self).handle() == old(self).handle(),
    {
        let ghost start = self.state();
        let mut k: usize = 0;
        while k < readings.len()
            invariant
                k <= readings.len(),
                self.buttons.len() == 14,
                self.axes.len() == 6,
                self.handle == old(self).handle,
                (self.buttons@, self.axes@) == pad_apply(start, readings_view(readings@).take(k as int)),
            decreases readings.len() - k,
        {
            let ghost all = readings_view(readings@);
            assert(all.take(k + 1).drop_last() =~= all.take(k as int));
            assert(all.take(k + 1).last() == all[k as int]);
            let n = chars_of(readings[k].0.as_str());
            let value = readings[k].1;
            match xkey_of_chars(&n) {
                Some(b) => {
                    let i = button_slot(b);
                    self.buttons.set(i, value as u16);
                },
                None => match xaxis_of_chars(&n) {
                    Some(a) => {
                        let i = axis_slot(a);
                        self.axes.set(i, value as i16);
                    },
                    None => {},
                },
            }
            k = k + 1;
        }
        assert(readings_view(readings@).take(readings.len() as int) =~= readings_view(readings@));
    }

    /// The report for the pad's present state. The x axes are mirrored,
    /// which has no value for the lowest position.
    pub fn report(&self) -> (r: XReport)
        requires
            self.wf(),
            self.state().1[axis_index(XAxis::LeftThumbX)] != i16::MIN,
            self.state().1[axis_index(XAxis::RightThumbX)] != i16::MIN,
        ensures
            r.thumb_lx == -self.state().1[axis_index(XAxis::LeftThumbX)],
            r.thumb_ly == self.state().1[axis_index(XAxis::LeftThumbY)],
            r.thumb_rx == -self.state().1[axis_index(XAxis::RightThumbX)],
            r.thumb_ry == self.state().1[axis_index(XAxis::RightThumbY)],
            r.left_trigger == self.state().1[axis_index(XAxis::LeftTrigger)] as u8,
            r.right_trigger == self.state().1[axis_index(XAxis::RightTrigger)] as u8,
            r.pressed@ == pressed_among(self.state().0, 14),
    {
        let mut pressed: Vec<XButton> = Vec::new();
        let mut i: usize = 0;
        while i < 14
            invariant
                i <= 14,
                self.buttons.len() == 14,
                pressed@ == pressed_among(self.buttons@, i as int),
            decreases 14 - i,
        {
            if self.buttons[i] > 0 {
                pressed.push(button_of_slot(i));
            }
            i = i + 1;
        }
        XReport {
            thumb_lx: -self.axes[0],
            thumb_ly: self.axes[1],
            thumb_rx: -self.axes[2],
            thumb_ry: self.axes[3],
            left_trigger: self.axes[4] as u8,
            right_trigger: self.axes[5] as u8,
            pressed,
        }
    }
}

} // verus!
