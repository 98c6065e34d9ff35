//! The input forwarding channel: viewer input travels as four-part text
//! messages and becomes events for the host's virtual gamepad.
use vstd::prelude::*;
use crate::protocol::{StreamError, Topic, topic_text, topic_string, texts};
use crate::text::{
    decimal_of, signed_decimal_of, spec_parse_u16, spec_parse_i32, decimal_text, signed_decimal_text,
    parse_u16, parse_i32, lemma_parse_u16_decimal, lemma_parse_i32_decimal,
};

verus! {

/// An input transition reported by a viewer.
pub struct InputEvent {
    pub source_identity: String,
    pub code: u16,
    pub state: i32,
}

/// An analog axis of the virtual gamepad.
#[derive(PartialEq, Eq, Structural, Clone, Copy, Debug)]
pub enum GamepadAxis {
    /// The left stick's horizontal axis.
    X,
    /// The left stick's vertical axis.
    Y,
}

/// What the virtual gamepad is told.
#[derive(PartialEq, Eq, Structural, Clone, Copy, Debug)]
pub enum DeviceEvent {
    /// The south face button takes `value` (1 pressed, 0 released).
    Button { value: i32 },
    /// An axis moves to `value`, on a scale of 0 to 255 centred on 127.
    Axis { axis: GamepadAxis, value: i32 },
}

/// The keyboard scan codes that steer the left stick.
pub const CODE_UP: u16 = 17;
pub const CODE_DOWN: u16 = 31;
pub const CODE_RIGHT: u16 = 32;

/// The gamepad event for a key transition: the three steering keys push the
/// left stick to an edge while pressed (state 1) and centre it otherwise;
/// every other key is a digital press or release of the south button.
pub open spec fn spec_translate(code: u16, state: i32) -> DeviceEvent {
    if code == CODE_UP {
        DeviceEvent::Axis { axis: GamepadAxis::Y, value: if state == 1 { 255 } else { 127 } }
    } else if code == CODE_DOWN {
        DeviceEvent::Axis { axis: GamepadAxis::Y, value: if state == 1 { 0 } else { 127 } }
    } else if code == CODE_RIGHT {
        DeviceEvent::Axis { axis: GamepadAxis::X, value: if state == 1 { 255 } else { 127 } }
    } else {
        DeviceEvent::Button { value: state }
    }
}

/// Translates a key transition into the gamepad's terms.
pub fn translate(code: u16, state: i32) -> (r: DeviceEvent)
    ensures
        r == spec_translate(code, state),
{
    let pressed = state == 1;
    if code == CODE_UP {
        DeviceEvent::Axis { axis: GamepadAxis::Y, value: if pressed { 255 } else { 127 } }
    } else if code == CODE_DOWN {
        DeviceEvent::Axis { axis: GamepadAxis::Y, value: if pressed { 0 } else { 127 } }
    } else if code == CODE_RIGHT {
        DeviceEvent::Axis { axis: GamepadAxis::X, value: if pressed { 255 } else { 127 } }
    } else {
        DeviceEvent::Button { value: state }
    }
}

/// The parts of the push message for a transition: the identity, `KEY`,
/// the decimal code and the decimal state.
pub open spec fn spec_input_message(identity: Seq<char>, code: u16, state: i32) -> Seq<Seq<char>> {
    seq![identity, topic_text(Topic::Key), decimal_of(code as nat), signed_decimal_of(state as int)]
}

/// Builds the push message that forwards one transition.
pub fn input_message(identity: &String, code: u16, state: i32) -> (r: Vec<String>)
    ensures
        texts(r@) == spec_input_message(identity@, code, state),
{
    let mut v: Vec<String> = Vec::new();
    v.push(identity.clone());
    v.push(topic_string(Topic::Key));
    v.push(decimal_text(code as u64));
    v.push(signed_decimal_text(state as i64));
    proof {
        assert(texts(v@) =~= spec_input_message(identity@, code, state));
    }
    v
}

/// The transition that a push message carries: four parts, the second
/// `KEY`, the third a `u16` and the fourth an `i32` in decimal.
pub open spec fn spec_parse_input(parts: Seq<Seq<char>>) -> Result<(Seq<char>, u16, i32), StreamError> {
    if parts.len() == 4 && parts[1] == topic_text(Topic::Key) && spec_parse_u16(parts[2]) is Some
        && spec_parse_i32(parts[3]) is Some {
        Ok((parts[0], spec_parse_u16(parts[2])->Some_0, spec_parse_i32(parts[3])->Some_0))
    } else {
        Err(StreamError::MalformedInputEvent)
    }
}

/// Reads a push message; a malformed one fails with `MalformedInputEvent`.
pub fn parse_input(parts: &Vec<String>) -> (r: Result<InputEvent, StreamError>)
    ensures
        match spec_parse_input(texts(parts@)) {
            Ok((id, code, state)) => r is Ok && r->Ok_0.source_identity@ == id && r->Ok_0.code == code
                && r->Ok_0.state == state,
            Err(e) => r == Err::<InputEvent, StreamError>(e),
        },
{
    let ghost t = texts(parts@);
    if parts.len() != 4 {
        return Err(StreamError::MalformedInputEvent);
    }
    assert(t[0] == parts@[0]@ && t[1] == parts@[1]@ && t[2] == parts@[2]@ && t[3] == parts@[3]@);
    if parts[1] != topic_string(Topic::Key) {
        return Err(StreamError::MalformedInputEvent);
    }
    let code = parse_u16(parts[2].as_str());
    let state = parse_i32(parts[3].as_str());
    match (code, state) {
        (Some(code), Some(state)) => Ok(InputEvent { source_identity: parts[0].clone(), code, state }),
        _ => Err(StreamError::MalformedInputEvent),
    }
}

/// What the host emits for one push message.
pub open spec fn spec_handle_input(parts: Seq<Seq<char>>) -> Result<DeviceEvent, StreamError> {
    match spec_parse_input(parts) {
        Ok((_, code, state)) => Ok(spec_translate(code, state)),
        Err(e) => Err(e),
    }
}

/// Handles one push message on the host: the one gamepad event it stands
/// for, or `MalformedInputEvent`.
pub fn handle_input(parts: &Vec<String>) -> (r: Result<DeviceEvent, StreamError>)
    ensures
        r == spec_handle_input(texts(parts@)),
{
    match parse_input(parts) {
        Ok(ev) => Ok(translate(ev.code, ev.state)),
        Err(e) => Err(e),
    }
}

/// Every transition a viewer forwards reads back on the host as itself.
pub proof fn law_input_round_trip(identity: Seq<char>, code: u16, state: i32)
    ensures
        spec_parse_input(spec_input_message(identity, code, state)) == Ok::<(Seq<char>, u16, i32), StreamError>(
            (identity, code, state),
        ),
{
    lemma_parse_u16_decimal(code);
    lemma_parse_i32_decimal(state);
}

/// For any run of transitions forwarded by one viewer over the single push
/// channel, the host reads them in the order sent, each with its identity,
/// code and state, and emits for each exactly its translation, in that order.
pub proof fn law_input_order(identity: Seq<char>, events: Seq<(u16, i32)>)
    ensures
        events.map_values(|e: (u16, i32)| spec_input_message(identity, e.0, e.1)).map_values(
            |m: Seq<Seq<char>>| spec_parse_input(m),
        ) == events.map_values(
            |e: (u16, i32)| Ok::<(Seq<char>, u16, i32), StreamError>((identity, e.0, e.1)),
        ),
        events.map_values(|e: (u16, i32)| spec_input_message(identity, e.0, e.1)).map_values(
            |m: Seq<Seq<char>>| spec_handle_input(m),
        ) == events.map_values(|e: (u16, i32)| Ok::<DeviceEvent, StreamError>(spec_translate(e.0, e.1))),
{
    let sent = events.map_values(|e: (u16, i32)| spec_input_message(identity, e.0, e.1));
    assert forall|i: int| 0 <= i < events.len() implies spec_parse_input(#[trigger] sent[i])
        == Ok::<(Seq<char>, u16, i32), StreamError>((identity, events[i].0, events[i].1)) by {
        law_input_round_trip(identity, events[i].0, events[i].1);
    }
    assert(sent.map_values(|m: Seq<Seq<char>>| spec_parse_input(m)) =~= events.map_values(
        |e: (u16, i32)| Ok::<(Seq<char>, u16, i32), StreamError>((identity, e.0, e.1)),
    ));
    assert(sent.map_values(|m: Seq<Seq<char>>| spec_handle_input(m)) =~= events.map_values(
        |e: (u16, i32)| Ok::<DeviceEvent, StreamError>(spec_translate(e.0, e.1)),
    ));
}

} // verus!
