//! The request schema as it stands on the wire, once the payload bytes have
//! been decoded field by field, and its classification into a
//! [`Command`](crate::messages::Command).
//!
//! Optional fields are `Option`s here: the classification decides what a
//! missing field means, so that no request, however malformed, can crash
//! the server.
use vstd::prelude::*;

use crate::messages::{Color, Command as Cmd, Coordinates as Point, Shape as Stimulus};

pub mod root_message;
pub mod shape;

verus! {

/// The `Shape` message: a one-of over the three shapes.
#[derive(Clone, Debug, PartialEq, Eq, Structural)]
pub struct Shape {
    pub shape: Option<shape::Shape>,
}

/// The `Coordinates` message (bit patterns of two `f32`).
#[derive(Clone, Copy, Debug, PartialEq, Eq, Structural)]
pub struct Coordinates {
    pub x: u32,
    pub y: u32,
}

#[derive(Clone, Debug, PartialEq, Eq, Structural)]
pub struct Square {
    pub size: u32,
    pub ctr: Option<Coordinates>,
}

#[derive(Clone, Debug, PartialEq, Eq, Structural)]
pub struct Circle {
    pub radius: u32,
    pub ctr: Option<Coordinates>,
}

#[derive(Clone, Debug, PartialEq, Eq, Structural)]
pub struct Cross {
    pub size: u32,
    pub line_width: u32,
    pub ctr: Option<Coordinates>,
}

/// The envelope of every request.
#[derive(Clone, Debug)]
pub struct RootMessage {
    pub command: Option<root_message::Command>,
}

/// The `BgColor` message: a repeated float field, of which the first four
/// entries are red, green, blue and alpha.
#[derive(Clone, Debug)]
pub struct BgColor {
    pub color: Vec<u32>,
}

/// The `Texture` message: a slot index and encoded image bytes.
#[derive(Clone, Debug)]
pub struct Texture {
    pub index: u32,
    pub data: Vec<u8>,
}

/// Why a request could not become a command.
#[derive(Clone, Copy, Debug, PartialEq, Eq, Structural)]
pub enum DecodeError {
    /// The payload bytes are not an encoded `RootMessage`.
    Malformed,
    /// The `command` one-of is absent (no known variant tag).
    UnknownCommand,
    /// A `Shape` message whose `shape` one-of is absent.
    MissingShape,
    /// A shape without its centre.
    MissingCenter,
    /// A background colour with fewer than four channels.
    MissingChannels,
}

pub open spec fn spec_point(c: Coordinates) -> Point {
    Point { x: c.x, y: c.y }
}

/// The stimulus a shape message describes; `None` when its centre is absent.
pub open spec fn spec_stimulus(s: shape::Shape) -> Option<Stimulus> {
    match s {
        shape::Shape::Square(q) => match q.ctr {
            Some(c) => Some(Stimulus::Square { size: q.size, ctr: spec_point(c) }),
            None => None,
        },
        shape::Shape::Circle(q) => match q.ctr {
            Some(c) => Some(Stimulus::Circle { radius: q.radius, ctr: spec_point(c) }),
            None => None,
        },
        shape::Shape::Cross(q) => match q.ctr {
            Some(c) => Some(
                Stimulus::Cross { size: q.size, line_width: q.line_width, ctr: spec_point(c) },
            ),
            None => None,
        },
    }
}

/// The colour of a channel list of at least four entries.
pub open spec fn spec_color(ch: Seq<u32>) -> Color {
    Color { r: ch[0], g: ch[1], b: ch[2], a: ch[3] }
}

/// What a request means: the command it asks for, or why it asks for none.
pub open spec fn spec_command_of(m: RootMessage) -> Result<Cmd, DecodeError> {
    match m.command {
        None => Err(DecodeError::UnknownCommand),
        Some(root_message::Command::SetShape(s)) => match s.shape {
            None => Err(DecodeError::MissingShape),
            Some(k) => match spec_stimulus(k) {
                Some(st) => Ok(Cmd::Draw(st)),
                None => Err(DecodeError::MissingCenter),
            },
        },
        Some(root_message::Command::SetBgColor(c)) => if c.color@.len() >= 4 {
            Ok(Cmd::SetBackground(spec_color(c.color@)))
        } else {
            Err(DecodeError::MissingChannels)
        },
        Some(root_message::Command::SetTexture(t)) => Ok(Cmd::LoadTexture(t.index, t.data)),
    }
}

fn point(c: Coordinates) -> (r: Point)
    ensures
        r == spec_point(c),
{
    Point { x: c.x, y: c.y }
}

fn stimulus(s: shape::Shape) -> (r: Option<Stimulus>)
    ensures
        r == spec_stimulus(s),
{
    match s {
        shape::Shape::Square(q) => match q.ctr {
            Some(c) => Some(Stimulus::Square { size: q.size, ctr: point(c) }),
            None => None,
        },
        shape::Shape::Circle(q) => match q.ctr {
            Some(c) => Some(Stimulus::Circle { radius: q.radius, ctr: point(c) }),
            None => None,
        },
        shape::Shape::Cross(q) => match q.ctr {
            Some(c) => Some(
                Stimulus::Cross { size: q.size, line_width: q.line_width, ctr: point(c) },
            ),
            None => None,
        },
    }
}

impl RootMessage {
    /// Classifies a decoded request. Extra colour channels beyond the fourth
    /// are ignored.
    pub fn into_command(self) -> (r: Result<Cmd, DecodeError>)
        ensures
            r == spec_command_of(self),
    {
        match self.command {
            None => Err(DecodeError::UnknownCommand),
            Some(root_message::Command::SetShape(s)) => match s.shape {
                None => Err(DecodeError::MissingShape),
                Some(k) => match stimulus(k) {
                    Some(st) => Ok(Cmd::Draw(st)),
                    None => Err(DecodeError::MissingCenter),
                },
            },
            Some(root_message::Command::SetBgColor(c)) => {
                if c.color.len() >= 4 {
                    let color = Color { r: c.color[0], g: c.color[1], b: c.color[2], a: c.color[3] };
                    Ok(Cmd::SetBackground(color))
                } else {
                    Err(DecodeError::MissingChannels)
                }
            },
            Some(root_message::Command::SetTexture(t)) => Ok(Cmd::LoadTexture(t.index, t.data)),
        }
    }
}

pub open spec fn spec_coordinates(p: Point) -> Coordinates {
    Coordinates { x: p.x, y: p.y }
}

/// The shape message that describes a stimulus.
pub open spec fn spec_shape_message(s: Stimulus) -> shape::Shape {
    match s {
        Stimulus::Square { size, ctr } => shape::Shape::Square(
            Square { size, ctr: Some(spec_coordinates(ctr)) },
        ),
        Stimulus::Circle { radius, ctr } => shape::Shape::Circle(
            Circle { radius, ctr: Some(spec_coordinates(ctr)) },
        ),
        Stimulus::Cross { size, line_width, ctr } => shape::Shape::Cross(
            Cross { size, line_width, ctr: Some(spec_coordinates(ctr)) },
        ),
    }
}

/// `m` is the request that asks for `c`: every optional field present, the
/// colour as exactly its four channels.
pub open spec fn is_message_of(m: RootMessage, c: Cmd) -> bool {
    match (c, m.command) {
        (Cmd::Draw(s), Some(root_message::Command::SetShape(q))) => q.shape == Some(
            spec_shape_message(s),
        ),
        (Cmd::SetBackground(k), Some(root_message::Command::SetBgColor(q))) => q.color@ == seq![
            k.r,
            k.g,
            k.b,
            k.a,
        ],
        (Cmd::LoadTexture(index, data), Some(root_message::Command::SetTexture(t))) => t.index
            == index && t.data == data,
        _ => false,
    }
}

fn coordinates(p: Point) -> (r: Coordinates)
    ensures
        r == spec_coordinates(p),
{
    Coordinates { x: p.x, y: p.y }
}

impl Cmd {
    /// The request a client sends to ask for this command.
    pub fn into_message(self) -> (r: RootMessage)
        ensures
            is_message_of(r, self),
    {
        match self {
            Cmd::Draw(s) => {
                let k = match s {
                    Stimulus::Square { size, ctr } => shape::Shape::Square(
                        Square { size, ctr: Some(coordinates(ctr)) },
                    ),
                    Stimulus::Circle { radius, ctr } => shape::Shape::Circle(
                        Circle { radius, ctr: Some(coordinates(ctr)) },
                    ),
                    Stimulus::Cross { size, line_width, ctr } => shape::Shape::Cross(
                        Cross { size, line_width, ctr: Some(coordinates(ctr)) },
                    ),
                };
                RootMessage {
                    command: Some(root_message::Command::SetShape(Shape { shape: Some(k) })),
                }
            },
            Cmd::SetBackground(k) => {
                let color: Vec<u32> = vec![k.r, k.g, k.b, k.a];
                RootMessage { command: Some(root_message::Command::SetBgColor(BgColor { color })) }
            },
            Cmd::LoadTexture(index, data) => RootMessage {
                command: Some(root_message::Command::SetTexture(Texture { index, data })),
            },
        }
    }
}

/// Encoding a command as a request and classifying that request gives the
/// command back, for every shape, colour and texture.
pub proof fn lemma_message_round_trip(c: Cmd, m: RootMessage)
    requires
        is_message_of(m, c),
    ensures
        spec_command_of(m) == Ok::<Cmd, DecodeError>(c),
{
    match c {
        Cmd::Draw(s) => {
            match s {
                Stimulus::Square { size, ctr } => {},
                Stimulus::Circle { radius, ctr } => {},
                Stimulus::Cross { size, line_width, ctr } => {},
            }
        },
        Cmd::SetBackground(k) => {},
        Cmd::LoadTexture(index, data) => {},
    }
}

} // verus!
