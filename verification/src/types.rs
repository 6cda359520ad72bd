//! Shared observability types: the severity-tagged message log that every
//! session and the simulation append to, and the colors used to render it.

use vstd::prelude::*;

verus! {

/// An RGB color triple.
#[derive(Clone, Copy, PartialEq, Eq, Structural, Debug)]
pub struct Rgb {
    pub r: u8,
    pub g: u8,
    pub b: u8,
}

/// Struct representing a styled message with text and color.
#[derive(Clone, Debug)]
pub struct StyledMessage {
    /// The text of the message.
    pub text: String,
    /// The color of the message.
    pub color: Rgb,
}

/// Enum representing different types of messages.
#[derive(Clone, Copy, PartialEq, Eq, Structural, Debug)]
pub enum MessageType {
    Info,
    Error,
    Warning,
    Debug,
    Default,
}

impl StyledMessage {
    /// Creates a new styled message with the given text, colored after the
    /// message type.
    pub fn new(text: String, message_type: MessageType) -> (r: StyledMessage)
        ensures
            r.text == text,
            r.color == message_type.color_spec(),
    {
        let color = message_type.to_color();
        StyledMessage { text, color }
    }
}

impl MessageType {
    /// The color associated with each message type.
    pub open spec fn color_spec(self) -> Rgb {
        match self {
            MessageType::Info => Rgb { r: 0, g: 255, b: 0 },
            MessageType::Error => Rgb { r: 255, g: 0, b: 0 },
            MessageType::Warning => Rgb { r: 255, g: 255, b: 0 },
            MessageType::Debug => Rgb { r: 0, g: 0, b: 255 },
            MessageType::Default => Rgb { r: 160, g: 160, b: 160 },
        }
    }

    /// Converts a message type to a corresponding color: green for info, red
    /// for errors, yellow for warnings, blue for debug, gray otherwise.
    pub fn to_color(&self) -> (r: Rgb)
        ensures
            r == self.color_spec(),
    {
        match self {
            MessageType::Info => Rgb { r: 0, g: 255, b: 0 },
            MessageType::Error => Rgb { r: 255, g: 0, b: 0 },
            MessageType::Warning => Rgb { r: 255, g: 255, b: 0 },
            MessageType::Debug => Rgb { r: 0, g: 0, b: 255 },
            MessageType::Default => Rgb { r: 160, g: 160, b: 160 },
        }
    }
}

/// Adds a new message to the list of messages: appends a styled message with
/// the given text and the type's color. The caller owns any locking around
/// the shared list.
pub fn add_message(messages: &mut Vec<StyledMessage>, text: String, message_type: MessageType)
    ensures
        final(messages)@.len() == old(messages)@.len() + 1,
        final(messages)@.last().text == text,
        final(messages)@.last().color == message_type.color_spec(),
        forall|i: int|
            0 <= i < old(messages)@.len() ==> final(messages)@[i] == old(messages)@[i],
{
    let message = StyledMessage::new(text, message_type);
    messages.push(message);
}

} // verus!
