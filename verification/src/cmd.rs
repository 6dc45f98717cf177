//! The command codec: typed commands, the ranges of their arguments, and
//! their text on the wire.

use crate::error::Error;
use crate::keyword::Keyword;
use crate::number::{
    int_text, integer_value, is_integer, lemma_int_text, push_int_text, push_nat_text,
    read_in_range, Reading,
};
use crate::state::{snapshot_of, State, StateView};
use crate::text::{
    chars_of, is_word, join, join_words, lemma_words_of_join, seqs, split_words, string_of,
    word_is, words,
};
use vstd::prelude::*;

verus! {

/// The least distance of a move, in centimetres.
pub const DISTANCE_MIN: i64 = 20;

/// The greatest distance of a move, in centimetres.
pub const DISTANCE_MAX: i64 = 500;

/// The least angle of a rotation, in degrees.
pub const ANGLE_MIN: i64 = 1;

/// The greatest angle of a rotation, in degrees.
pub const ANGLE_MAX: i64 = 360;

/// The least coordinate of a target point, in centimetres.
pub const AXIS_MIN: i64 = -500;

/// The greatest coordinate of a target point, in centimetres.
pub const AXIS_MAX: i64 = 500;

/// The least speed, in centimetres per second.
pub const SPEED_MIN: i64 = 10;

/// The greatest speed, in centimetres per second.
pub const SPEED_MAX: i64 = 100;

/// The kinds of number that commands carry, each with its legal range.
#[derive(Debug, Clone, Copy, PartialEq, Eq, Structural)]
pub enum Quantity {
    /// The distance of a move.
    Distance,
    /// The angle of a rotation.
    Angle,
    /// A coordinate of a target point.
    Axis,
    /// A speed.
    Speed,
}

impl Quantity {
    /// The least legal value.
    pub open spec fn lo(self) -> int {
        match self {
            Quantity::Distance => DISTANCE_MIN as int,
            Quantity::Angle => ANGLE_MIN as int,
            Quantity::Axis => AXIS_MIN as int,
            Quantity::Speed => SPEED_MIN as int,
        }
    }

    /// The greatest legal value.
    pub open spec fn hi(self) -> int {
        match self {
            Quantity::Distance => DISTANCE_MAX as int,
            Quantity::Angle => ANGLE_MAX as int,
            Quantity::Axis => AXIS_MAX as int,
            Quantity::Speed => SPEED_MAX as int,
        }
    }

    /// `n` is a legal value of this quantity.
    pub open spec fn admits(self, n: int) -> bool {
        self.lo() <= n <= self.hi()
    }

    /// The least and the greatest legal value.
    pub fn bounds(&self) -> (r: (i64, i64))
        ensures
            r.0 == self.lo(),
            r.1 == self.hi(),
    {
        match self {
            Quantity::Distance => (DISTANCE_MIN, DISTANCE_MAX),
            Quantity::Angle => (ANGLE_MIN, ANGLE_MAX),
            Quantity::Axis => (AXIS_MIN, AXIS_MAX),
            Quantity::Speed => (SPEED_MIN, SPEED_MAX),
        }
    }

    /// Whether `n` is a legal value of this quantity.
    pub fn contains(&self, n: i64) -> (b: bool)
        ensures
            b == self.admits(n as int),
    {
        let (lo, hi) = self.bounds();
        lo <= n && n <= hi
    }

    /// Whether the unsigned `n` is a legal value of this quantity.
    pub fn contains_unsigned(&self, n: usize) -> (b: bool)
        ensures
            b == self.admits(n as int),
    {
        let (lo, hi) = self.bounds();
        if n as u64 > i64::MAX as u64 {
            false
        } else {
            let m: i64 = n as u64 as i64;
            lo <= m && m <= hi
        }
    }

    /// Whether the signed `n` is a legal value of this quantity.
    pub fn contains_signed(&self, n: isize) -> (b: bool)
        ensures
            b == self.admits(n as int),
    {
        let (lo, hi) = self.bounds();
        let m: i64 = n as i64;
        lo <= m && m <= hi
    }
}

/// The direction of a flip.
#[derive(Debug, Clone, Copy, PartialEq, Eq, Structural)]
pub enum FlipCommandArg {
    Left,
    Right,
    Forward,
    Back,
}

impl FlipCommandArg {
    /// The letter that stands for the direction on the wire.
    pub open spec fn letter(self) -> Seq<char> {
        match self {
            FlipCommandArg::Left => "l"@,
            FlipCommandArg::Right => "r"@,
            FlipCommandArg::Forward => "f"@,
            FlipCommandArg::Back => "b"@,
        }
    }

    /// The direction that `s` stands for, if any.
    pub open spec fn of_letter(s: Seq<char>) -> Option<FlipCommandArg> {
        if s == "l"@ {
            Some(FlipCommandArg::Left)
        } else if s == "r"@ {
            Some(FlipCommandArg::Right)
        } else if s == "f"@ {
            Some(FlipCommandArg::Forward)
        } else if s == "b"@ {
            Some(FlipCommandArg::Back)
        } else {
            None
        }
    }

    /// The letter that stands for the direction on the wire.
    pub fn as_str(&self) -> (s: &'static str)
        ensures
            s@ == self.letter(),
    {
        match self {
            FlipCommandArg::Left => "l",
            FlipCommandArg::Right => "r",
            FlipCommandArg::Forward => "f",
            FlipCommandArg::Back => "b",
        }
    }

    /// The letter that stands for the direction on the wire.
    pub fn to_string(&self) -> (s: String)
        ensures
            s@ == self.letter(),
    {
        self.as_str().to_owned()
    }

    fn from_chars(v: &[char]) -> (r: Option<FlipCommandArg>)
        ensures
            r == Self::of_letter(v@),
    {
        if word_is(v, "l") {
            Some(FlipCommandArg::Left)
        } else if word_is(v, "r") {
            Some(FlipCommandArg::Right)
        } else if word_is(v, "f") {
            Some(FlipCommandArg::Forward)
        } else if word_is(v, "b") {
            Some(FlipCommandArg::Back)
        } else {
            None
        }
    }

    /// Reads a direction from its letter: `l`, `r`, `f` or `b`.
    pub fn from_str(s: &str) -> (r: Option<FlipCommandArg>)
        ensures
            r == Self::of_letter(s@),
    {
        let v = chars_of(s);
        Self::from_chars(v.as_slice())
    }

    /// Each direction is read back from its letter.
    pub proof fn lemma_letter_roundtrip(self)
        ensures
            Self::of_letter(self.letter()) == Some(self),
            is_word(self.letter()),
    {
        reveal_strlit("l");
        reveal_strlit("r");
        reveal_strlit("f");
        reveal_strlit("b");
        assert("l"@[0] == 'l' && "r"@[0] == 'r' && "f"@[0] == 'f' && "b"@[0] == 'b');
    }
}

/// A typed instruction for the robot.
#[derive(Debug, PartialEq)]
pub enum Command {
    Command,
    Takeoff,
    Land,
    StreamOn,
    StreamOff,
    Emergency,
    Up(usize),
    Down(usize),
    Left(usize),
    Right(usize),
    Forward(usize),
    Back(usize),
    ClockwiseRotation(usize),
    CounterClockwiseRotation(usize),
    Flip(FlipCommandArg),
    Go { x: isize, y: isize, z: isize, speed: usize, mid: Option<usize> },
    Stop,
    Curve {
        x1: isize,
        y1: isize,
        z1: isize,
        x2: isize,
        y2: isize,
        z2: isize,
        speed: usize,
        mid: Option<usize>,
    },
    Jump { x: isize, y: isize, z: isize, speed: usize, yaw: usize, mid1: usize, mid2: usize },
    Speed(usize),
    Rc { a: usize, b: usize, c: usize, d: usize },
    Wifi { ssid: String, pass: String },
    MissionpadOn,
    MissionpadOff,
    MissionpadDirection(usize),
    AccessPoint { ssid: String, pass: String },
    ReadSpeed,
    ReadBattery,
    ReadTime,
    ReadWifi,
    ReadSdk,
    ReadSerialNumber,
}

/// A command as a mathematical value: integers without machine bounds, and
/// names as sequences of characters.
pub enum CommandView {
    Command,
    Takeoff,
    Land,
    StreamOn,
    StreamOff,
    Emergency,
    Up(int),
    Down(int),
    Left(int),
    Right(int),
    Forward(int),
    Back(int),
    ClockwiseRotation(int),
    CounterClockwiseRotation(int),
    Flip(FlipCommandArg),
    Go { x: int, y: int, z: int, speed: int, mid: Option<int> },
    Stop,
    Curve { x1: int, y1: int, z1: int, x2: int, y2: int, z2: int, speed: int, mid: Option<int> },
    Jump { x: int, y: int, z: int, speed: int, yaw: int, mid1: int, mid2: int },
    Speed(int),
    Rc { a: int, b: int, c: int, d: int },
    Wifi { ssid: Seq<char>, pass: Seq<char> },
    MissionpadOn,
    MissionpadOff,
    MissionpadDirection(int),
    AccessPoint { ssid: Seq<char>, pass: Seq<char> },
    ReadSpeed,
    ReadBattery,
    ReadTime,
    ReadWifi,
    ReadSdk,
    ReadSerialNumber,
}

/// The mission pad of a command as a mathematical value.
pub open spec fn pad_view(mid: Option<usize>) -> Option<int> {
    match mid {
        Some(m) => Some(m as int),
        None => None,
    }
}

impl View for Command {
    type V = CommandView;

    open spec fn view(&self) -> CommandView {
        match *self {
            Command::Command => CommandView::Command,
            Command::Takeoff => CommandView::Takeoff,
            Command::Land => CommandView::Land,
            Command::StreamOn => CommandView::StreamOn,
            Command::StreamOff => CommandView::StreamOff,
            Command::Emergency => CommandView::Emergency,
            Command::Up(n) => CommandView::Up(n as int),
            Command::Down(n) => CommandView::Down(n as int),
            Command::Left(n) => CommandView::Left(n as int),
            Command::Right(n) => CommandView::Right(n as int),
            Command::Forward(n) => CommandView::Forward(n as int),
            Command::Back(n) => CommandView::Back(n as int),
            Command::ClockwiseRotation(n) => CommandView::ClockwiseRotation(n as int),
            Command::CounterClockwiseRotation(n) => CommandView::CounterClockwiseRotation(n as int),
            Command::Flip(d) => CommandView::Flip(d),
            Command::Go { x, y, z, speed, mid } => CommandView::Go {
                x: x as int,
                y: y as int,
                z: z as int,
                speed: speed as int,
                mid: pad_view(mid),
            },
            Command::Stop => CommandView::Stop,
            Command::Curve { x1, y1, z1, x2, y2, z2, speed, mid } => CommandView::Curve {
                x1: x1 as int,
                y1: y1 as int,
                z1: z1 as int,
                x2: x2 as int,
                y2: y2 as int,
                z2: z2 as int,
                speed: speed as int,
                mid: pad_view(mid),
            },
            Command::Jump { x, y, z, speed, yaw, mid1, mid2 } => CommandView::Jump {
                x: x as int,
                y: y as int,
                z: z as int,
                speed: speed as int,
                yaw: yaw as int,
                mid1: mid1 as int,
                mid2: mid2 as int,
            },
            Command::Speed(n) => CommandView::Speed(n as int),
            Command::Rc { a, b, c, d } => CommandView::Rc {
                a: a as int,
                b: b as int,
                c: c as int,
                d: d as int,
            },
            Command::Wifi { ssid, pass } => CommandView::Wifi { ssid: ssid@, pass: pass@ },
            Command::MissionpadOn => CommandView::MissionpadOn,
            Command::MissionpadOff => CommandView::MissionpadOff,
            Command::MissionpadDirection(n) => CommandView::MissionpadDirection(n as int),
            Command::AccessPoint { ssid, pass } => CommandView::AccessPoint {
                ssid: ssid@,
                pass: pass@,
            },
            Command::ReadSpeed => CommandView::ReadSpeed,
            Command::ReadBattery => CommandView::ReadBattery,
            Command::ReadTime => CommandView::ReadTime,
            Command::ReadWifi => CommandView::ReadWifi,
            Command::ReadSdk => CommandView::ReadSdk,
            Command::ReadSerialNumber => CommandView::ReadSerialNumber,
        }
    }
}

impl Clone for Command {
    fn clone(&self) -> (r: Command)
        ensures
            r@ == self@,
    {
        match self {
            Command::Command => Command::Command,
            Command::Takeoff => Command::Takeoff,
            Command::Land => Command::Land,
            Command::StreamOn => Command::StreamOn,
            Command::StreamOff => Command::StreamOff,
            Command::Emergency => Command::Emergency,
            Command::Up(n) => Command::Up(*n),
            Command::Down(n) => Command::Down(*n),
            Command::Left(n) => Command::Left(*n),
            Command::Right(n) => Command::Right(*n),
            Command::Forward(n) => Command::Forward(*n),
            Command::Back(n) => Command::Back(*n),
            Command::ClockwiseRotation(n) => Command::ClockwiseRotation(*n),
            Command::CounterClockwiseRotation(n) => Command::CounterClockwiseRotation(*n),
            Command::Flip(d) => Command::Flip(*d),
            Command::Go { x, y, z, speed, mid } => Command::Go {
                x: *x,
                y: *y,
                z: *z,
                speed: *speed,
                mid: *mid,
            },
            Command::Stop => Command::Stop,
            Command::Curve { x1, y1, z1, x2, y2, z2, speed, mid } => Command::Curve {
                x1: *x1,
                y1: *y1,
                z1: *z1,
                x2: *x2,
                y2: *y2,
                z2: *z2,
                speed: *speed,
                mid: *mid,
            },
            Command::Jump { x, y, z, speed, yaw, mid1, mid2 } => Command::Jump {
                x: *x,
                y: *y,
                z: *z,
                speed: *speed,
                yaw: *yaw,
                mid1: *mid1,
                mid2: *mid2,
            },
            Command::Speed(n) => Command::Speed(*n),
            Command::Rc { a, b, c, d } => Command::Rc { a: *a, b: *b, c: *c, d: *d },
            Command::Wifi { ssid, pass } => Command::Wifi {
                ssid: ssid.clone(),
                pass: pass.clone(),
            },
            Command::MissionpadOn => Command::MissionpadOn,
            Command::MissionpadOff => Command::MissionpadOff,
            Command::MissionpadDirection(n) => Command::MissionpadDirection(*n),
            Command::AccessPoint { ssid, pass } => Command::AccessPoint {
                ssid: ssid.clone(),
                pass: pass.clone(),
            },
            Command::ReadSpeed => Command::ReadSpeed,
            Command::ReadBattery => Command::ReadBattery,
            Command::ReadTime => Command::ReadTime,
            Command::ReadWifi => Command::ReadWifi,
            Command::ReadSdk => Command::ReadSdk,
            Command::ReadSerialNumber => Command::ReadSerialNumber,
        }
    }
}

impl CommandView {
    /// Every numeric field lies in the range of its quantity.
    pub open spec fn in_range(self) -> bool {
        match self {
            CommandView::Up(n)
            | CommandView::Down(n)
            | CommandView::Left(n)
            | CommandView::Right(n)
            | CommandView::Forward(n)
            | CommandView::Back(n) => Quantity::Distance.admits(n),
            CommandView::ClockwiseRotation(n) | CommandView::CounterClockwiseRotation(n) =>
                Quantity::Angle.admits(n),
            CommandView::Go { x, y, z, speed, mid } => {
                &&& Quantity::Axis.admits(x)
                &&& Quantity::Axis.admits(y)
                &&& Quantity::Axis.admits(z)
                &&& Quantity::Speed.admits(speed)
            },
            CommandView::Curve { x1, y1, z1, x2, y2, z2, speed, mid } => {
                &&& Quantity::Axis.admits(x1)
                &&& Quantity::Axis.admits(y1)
                &&& Quantity::Axis.admits(z1)
                &&& Quantity::Axis.admits(x2)
                &&& Quantity::Axis.admits(y2)
                &&& Quantity::Axis.admits(z2)
                &&& Quantity::Speed.admits(speed)
            },
            CommandView::Speed(n) => Quantity::Speed.admits(n),
            _ => true,
        }
    }

    /// The word that opens the command on the wire. The commands that
    /// address a mission pad, and the stick command, have none.
    pub open spec fn keyword(self) -> Option<Keyword> {
        match self {
            CommandView::Command => Some(Keyword::Command),
            CommandView::Takeoff => Some(Keyword::Takeoff),
            CommandView::Land => Some(Keyword::Land),
            CommandView::StreamOn => Some(Keyword::StreamOn),
            CommandView::StreamOff => Some(Keyword::StreamOff),
            CommandView::Emergency => Some(Keyword::Emergency),
            CommandView::Up(_) => Some(Keyword::Up),
            CommandView::Down(_) => Some(Keyword::Down),
            CommandView::Left(_) => Some(Keyword::Left),
            CommandView::Right(_) => Some(Keyword::Right),
            CommandView::Forward(_) => Some(Keyword::Forward),
            CommandView::Back(_) => Some(Keyword::Back),
            CommandView::ClockwiseRotation(_) => Some(Keyword::Clockwise),
            CommandView::CounterClockwiseRotation(_) => Some(Keyword::CounterClockwise),
            CommandView::Flip(_) => Some(Keyword::Flip),
            CommandView::Go { x, y, z, speed, mid } => if mid is None {
                Some(Keyword::Go)
            } else {
                None
            },
            CommandView::Stop => Some(Keyword::Stop),
            CommandView::Curve { x1, y1, z1, x2, y2, z2, speed, mid } => if mid is None {
                Some(Keyword::Curve)
            } else {
                None
            },
            CommandView::Jump { .. } => None,
            CommandView::Speed(_) => Some(Keyword::Speed),
            CommandView::Rc { .. } => None,
            CommandView::Wifi { .. } => Some(Keyword::Wifi),
            CommandView::MissionpadOn => Some(Keyword::MissionpadOn),
            CommandView::MissionpadOff => Some(Keyword::MissionpadOff),
            CommandView::MissionpadDirection(_) => None,
            CommandView::AccessPoint { .. } => Some(Keyword::AccessPoint),
            CommandView::ReadSpeed => Some(Keyword::ReadSpeed),
            CommandView::ReadBattery => Some(Keyword::ReadBattery),
            CommandView::ReadTime => Some(Keyword::ReadTime),
            CommandView::ReadWifi => Some(Keyword::ReadWifi),
            CommandView::ReadSdk => Some(Keyword::ReadSdk),
            CommandView::ReadSerialNumber => Some(Keyword::ReadSerialNumber),
        }
    }

    /// Whether the command may be sent: `Ok` where every numeric field is in
    /// range and the command has a wire form; a field out of range is
    /// reported before a missing wire form.
    pub open spec fn sendable(self) -> Result<(), Error> {
        if !self.in_range() {
            Err(Error::ArgumentOutOfRange)
        } else if self.keyword() is None {
            Err(Error::UnsupportedCommand)
        } else {
            Ok(())
        }
    }

    /// The words that follow the keyword on the wire.
    pub open spec fn arguments(self) -> Seq<Seq<char>> {
        match self {
            CommandView::Up(n)
            | CommandView::Down(n)
            | CommandView::Left(n)
            | CommandView::Right(n)
            | CommandView::Forward(n)
            | CommandView::Back(n)
            | CommandView::ClockwiseRotation(n)
            | CommandView::CounterClockwiseRotation(n)
            | CommandView::Speed(n) => seq![int_text(n)],
            CommandView::Flip(d) => seq![d.letter()],
            CommandView::Go { x, y, z, speed, mid } => seq![
                int_text(x),
                int_text(y),
                int_text(z),
                int_text(speed),
            ],
            CommandView::Curve { x1, y1, z1, x2, y2, z2, speed, mid } => seq![
                int_text(x1),
                int_text(y1),
                int_text(z1),
                int_text(x2),
                int_text(y2),
                int_text(z2),
                int_text(speed),
            ],
            CommandView::Wifi { ssid, pass } | CommandView::AccessPoint { ssid, pass } => seq![
                ssid,
                pass,
            ],
            _ => Seq::empty(),
        }
    }

    /// The words of the command on the wire: the keyword, then the
    /// arguments.
    pub open spec fn wire_words(self) -> Seq<Seq<char>>
        recommends
            self.keyword() is Some,
    {
        seq![self.keyword().unwrap().text()] + self.arguments()
    }

    /// The text of the command on the wire: its words, one space apart.
    pub open spec fn wire(self) -> Seq<char>
        recommends
            self.keyword() is Some,
    {
        join(self.wire_words())
    }

    /// What formatting the command gives: its wire text where it may be
    /// sent, else the reason why it may not.
    pub open spec fn encode(self) -> Result<Seq<char>, Error> {
        match self.sendable() {
            Ok(_) => Ok(self.wire()),
            Err(e) => Err(e),
        }
    }

    /// The names that the command carries are words: they can stand on the
    /// wire as one argument each.
    pub open spec fn names_are_words(self) -> bool {
        match self {
            CommandView::Wifi { ssid, pass } | CommandView::AccessPoint { ssid, pass } => is_word(
                ssid,
            ) && is_word(pass),
            _ => true,
        }
    }
}

/// The first `n` words of `a` are integer numerals, and `a` has no others.
pub open spec fn numerals(a: Seq<Seq<char>>, n: int) -> bool {
    a.len() == n && forall|i: int| 0 <= i < n ==> is_integer(#[trigger] a[i])
}

/// The command that keyword `k` with the arguments `a` spells, before any
/// range is applied.
pub open spec fn read(k: Keyword, a: Seq<Seq<char>>) -> Result<CommandView, Error> {
    match k {
        Keyword::Jump => Err(Error::UnsupportedCommand),
        Keyword::Command => bare(a, CommandView::Command),
        Keyword::Takeoff => bare(a, CommandView::Takeoff),
        Keyword::Land => bare(a, CommandView::Land),
        Keyword::StreamOn => bare(a, CommandView::StreamOn),
        Keyword::StreamOff => bare(a, CommandView::StreamOff),
        Keyword::Emergency => bare(a, CommandView::Emergency),
        Keyword::Stop => bare(a, CommandView::Stop),
        Keyword::MissionpadOn => bare(a, CommandView::MissionpadOn),
        Keyword::MissionpadOff => bare(a, CommandView::MissionpadOff),
        Keyword::ReadSpeed => bare(a, CommandView::ReadSpeed),
        Keyword::ReadBattery => bare(a, CommandView::ReadBattery),
        Keyword::ReadTime => bare(a, CommandView::ReadTime),
        Keyword::ReadWifi => bare(a, CommandView::ReadWifi),
        Keyword::ReadSdk => bare(a, CommandView::ReadSdk),
        Keyword::ReadSerialNumber => bare(a, CommandView::ReadSerialNumber),
        Keyword::Flip => if a.len() == 1 && FlipCommandArg::of_letter(a[0]) is Some {
            Ok(CommandView::Flip(FlipCommandArg::of_letter(a[0]).unwrap()))
        } else {
            Err(Error::Syntax)
        },
        Keyword::Wifi => if a.len() == 2 {
            Ok(CommandView::Wifi { ssid: a[0], pass: a[1] })
        } else {
            Err(Error::Syntax)
        },
        Keyword::AccessPoint => if a.len() == 2 {
            Ok(CommandView::AccessPoint { ssid: a[0], pass: a[1] })
        } else {
            Err(Error::Syntax)
        },
        Keyword::Go => if numerals(a, 4) {
            Ok(
                CommandView::Go {
                    x: integer_value(a[0]),
                    y: integer_value(a[1]),
                    z: integer_value(a[2]),
                    speed: integer_value(a[3]),
                    mid: None,
                },
            )
        } else {
            Err(Error::Syntax)
        },
        Keyword::Curve => if numerals(a, 7) {
            Ok(
                CommandView::Curve {
                    x1: integer_value(a[0]),
                    y1: integer_value(a[1]),
                    z1: integer_value(a[2]),
                    x2: integer_value(a[3]),
                    y2: integer_value(a[4]),
                    z2: integer_value(a[5]),
                    speed: integer_value(a[6]),
                    mid: None,
                },
            )
        } else {
            Err(Error::Syntax)
        },
        _ => if numerals(a, 1) {
            let n = integer_value(a[0]);
            Ok(
                match k {
                    Keyword::Up => CommandView::Up(n),
                    Keyword::Down => CommandView::Down(n),
                    Keyword::Left => CommandView::Left(n),
                    Keyword::Right => CommandView::Right(n),
                    Keyword::Forward => CommandView::Forward(n),
                    Keyword::Back => CommandView::Back(n),
                    Keyword::Clockwise => CommandView::ClockwiseRotation(n),
                    Keyword::CounterClockwise => CommandView::CounterClockwiseRotation(n),
                    _ => CommandView::Speed(n),
                },
            )
        } else {
            Err(Error::Syntax)
        },
    }
}

/// A command without arguments: `c` where no word follows the keyword.
pub open spec fn bare(a: Seq<Seq<char>>, c: CommandView) -> Result<CommandView, Error> {
    if a.len() == 0 {
        Ok(c)
    } else {
        Err(Error::Syntax)
    }
}

/// The command that the words `w` spell: the first word selects it, the
/// others are its arguments, and every numeric argument must lie in its
/// range.
pub open spec fn decode_words(w: Seq<Seq<char>>) -> Result<CommandView, Error> {
    if w.len() == 0 {
        Err(Error::Syntax)
    } else {
        match Keyword::of_text(w[0]) {
            None => Err(Error::Syntax),
            Some(k) => match read(k, w.skip(1)) {
                Err(e) => Err(e),
                Ok(c) => match c.sendable() {
                    Err(e) => Err(e),
                    Ok(_) => Ok(c),
                },
            },
        }
    }
}

/// The command that the text `s` spells.
pub open spec fn decode(s: Seq<char>) -> Result<CommandView, Error> {
    decode_words(words(s))
}

/// The numeral of the unsigned `n`.
fn unsigned_word(n: usize) -> (r: Vec<char>)
    ensures
        r@ == int_text(n as int),
{
    let mut r: Vec<char> = Vec::new();
    push_nat_text(&mut r, n as u64);
    assert(r@ =~= int_text(n as int));
    r
}

/// The numeral of the signed `n`.
fn signed_word(n: isize) -> (r: Vec<char>)
    ensures
        r@ == int_text(n as int),
{
    let mut r: Vec<char> = Vec::new();
    push_int_text(&mut r, n as i64);
    assert(r@ =~= int_text(n as int));
    r
}

/// One word.
fn one_word(a: Vec<char>) -> (r: Vec<Vec<char>>)
    ensures
        seqs(r@) == seq![a@],
{
    let mut r: Vec<Vec<char>> = Vec::new();
    r.push(a);
    assert(seqs(r@) =~= seq![a@]);
    r
}

/// `r` with `a` as one more word.
fn push_word(r: &mut Vec<Vec<char>>, a: Vec<char>)
    ensures
        seqs(final(r)@) == seqs(old(r)@).push(a@),
{
    r.push(a);
    assert(seqs(r@) =~= seqs(old(r)@).push(a@));
}

impl Command {
    /// Whether every numeric field lies in the range of its quantity.
    pub fn in_range(&self) -> (b: bool)
        ensures
            b == self@.in_range(),
    {
        match self {
            Command::Up(n)
            | Command::Down(n)
            | Command::Left(n)
            | Command::Right(n)
            | Command::Forward(n)
            | Command::Back(n) => Quantity::Distance.contains_unsigned(*n),
            Command::ClockwiseRotation(n) | Command::CounterClockwiseRotation(n) =>
                Quantity::Angle.contains_unsigned(*n),
            Command::Go { x, y, z, speed, mid } => {
                Quantity::Axis.contains_signed(*x) && Quantity::Axis.contains_signed(*y)
                    && Quantity::Axis.contains_signed(*z) && Quantity::Speed.contains_unsigned(
                    *speed,
                )
            },
            Command::Curve { x1, y1, z1, x2, y2, z2, speed, mid } => {
                Quantity::Axis.contains_signed(*x1) && Quantity::Axis.contains_signed(*y1)
                    && Quantity::Axis.contains_signed(*z1) && Quantity::Axis.contains_signed(*x2)
                    && Quantity::Axis.contains_signed(*y2) && Quantity::Axis.contains_signed(*z2)
                    && Quantity::Speed.contains_unsigned(*speed)
            },
            Command::Speed(n) => Quantity::Speed.contains_unsigned(*n),
            _ => true,
        }
    }

    /// The word that opens the command on the wire, if it has a wire form.
    pub fn keyword(&self) -> (k: Option<Keyword>)
        ensures
            k == self@.keyword(),
    {
        match self {
            Command::Command => Some(Keyword::Command),
            Command::Takeoff => Some(Keyword::Takeoff),
            Command::Land => Some(Keyword::Land),
            Command::StreamOn => Some(Keyword::StreamOn),
            Command::StreamOff => Some(Keyword::StreamOff),
            Command::Emergency => Some(Keyword::Emergency),
            Command::Up(_) => Some(Keyword::Up),
            Command::Down(_) => Some(Keyword::Down),
            Command::Left(_) => Some(Keyword::Left),
            Command::Right(_) => Some(Keyword::Right),
            Command::Forward(_) => Some(Keyword::Forward),
            Command::Back(_) => Some(Keyword::Back),
            Command::ClockwiseRotation(_) => Some(Keyword::Clockwise),
            Command::CounterClockwiseRotation(_) => Some(Keyword::CounterClockwise),
            Command::Flip(_) => Some(Keyword::Flip),
            Command::Go { x, y, z, speed, mid } => if mid.is_none() {
                Some(Keyword::Go)
            } else {
                None
            },
            Command::Stop => Some(Keyword::Stop),
            Command::Curve { x1, y1, z1, x2, y2, z2, speed, mid } => if mid.is_none() {
                Some(Keyword::Curve)
            } else {
                None
            },
            Command::Jump { .. } => None,
            Command::Speed(_) => Some(Keyword::Speed),
            Command::Rc { .. } => None,
            Command::Wifi { .. } => Some(Keyword::Wifi),
            Command::MissionpadOn => Some(Keyword::MissionpadOn),
            Command::MissionpadOff => Some(Keyword::MissionpadOff),
            Command::MissionpadDirection(_) => None,
            Command::AccessPoint { .. } => Some(Keyword::AccessPoint),
            Command::ReadSpeed => Some(Keyword::ReadSpeed),
            Command::ReadBattery => Some(Keyword::ReadBattery),
            Command::ReadTime => Some(Keyword::ReadTime),
            Command::ReadWifi => Some(Keyword::ReadWifi),
            Command::ReadSdk => Some(Keyword::ReadSdk),
            Command::ReadSerialNumber => Some(Keyword::ReadSerialNumber),
        }
    }

    /// Whether the command may be sent: an error where a numeric field is
    /// out of range or where the command has no wire form.
    pub fn validate(&self) -> (r: Result<(), Error>)
        ensures
            r == self@.sendable(),
    {
        if !self.in_range() {
            Err(Error::ArgumentOutOfRange)
        } else if self.keyword().is_none() {
            Err(Error::UnsupportedCommand)
        } else {
            Ok(())
        }
    }

    /// The words that follow the keyword on the wire.
    fn arguments(&self) -> (a: Vec<Vec<char>>)
        ensures
            seqs(a@) == self@.arguments(),
    {
        match self {
            Command::Up(n)
            | Command::Down(n)
            | Command::Left(n)
            | Command::Right(n)
            | Command::Forward(n)
            | Command::Back(n)
            | Command::ClockwiseRotation(n)
            | Command::CounterClockwiseRotation(n)
            | Command::Speed(n) => one_word(unsigned_word(*n)),
            Command::Flip(d) => one_word(chars_of(d.as_str())),
            Command::Go { x, y, z, speed, mid } => {
                let mut a = one_word(signed_word(*x));
                push_word(&mut a, signed_word(*y));
                push_word(&mut a, signed_word(*z));
                push_word(&mut a, unsigned_word(*speed));
                a
            },
            Command::Curve { x1, y1, z1, x2, y2, z2, speed, mid } => {
                let mut a = one_word(signed_word(*x1));
                push_word(&mut a, signed_word(*y1));
                push_word(&mut a, signed_word(*z1));
                push_word(&mut a, signed_word(*x2));
                push_word(&mut a, signed_word(*y2));
                push_word(&mut a, signed_word(*z2));
                push_word(&mut a, unsigned_word(*speed));
                a
            },
            Command::Wifi { ssid, pass } | Command::AccessPoint { ssid, pass } => {
                let mut a = one_word(chars_of(ssid.as_str()));
                push_word(&mut a, chars_of(pass.as_str()));
                a
            },
            _ => {
                let a: Vec<Vec<char>> = Vec::new();
                assert(seqs(a@) =~= Seq::<Seq<char>>::empty());
                a
            },
        }
    }

    /// The text of the command on the wire, for a command that has one.
    fn wire_text(&self, k: Keyword) -> (s: String)
        requires
            self@.keyword() == Some(k),
        ensures
            s@ == self@.wire(),
    {
        let mut w = one_word(chars_of(k.as_str()));
        let mut a = self.arguments();
        let ghost head = seqs(w@);
        let ghost tail = seqs(a@);
        w.append(&mut a);
        proof {
            assert(seqs(w@) =~= head + tail);
        }
        let text = join_words(&w);
        string_of(text.as_slice())
    }

    /// The text of the command on the wire, or the reason why the command
    /// may not be sent: a numeric field out of its range, or no wire form.
    /// Nothing is clamped.
    pub fn format(&self) -> (r: Result<String, Error>)
        ensures
            match r {
                Ok(s) => self@.encode() == Ok::<Seq<char>, Error>(s@),
                Err(e) => self@.encode() == Err::<Seq<char>, Error>(e),
            },
    {
        if !self.in_range() {
            return Err(Error::ArgumentOutOfRange);
        }
        match self.keyword() {
            None => Err(Error::UnsupportedCommand),
            Some(k) => Ok(self.wire_text(k)),
        }
    }

    /// The text of a command that may be sent.
    pub fn to_string(&self) -> (s: String)
        requires
            self@.sendable() is Ok,
        ensures
            s@ == self@.wire(),
    {
        match self.keyword() {
            Some(k) => self.wire_text(k),
            None => vstd::pervasive::unreached(),
        }
    }

    /// Whether the robot answers the command. The stick command is sent
    /// without waiting for a reply.
    pub fn expects_reply(&self) -> (b: bool)
        ensures
            b == !(self@ is Rc),
    {
        match self {
            Command::Rc { .. } => false,
            _ => true,
        }
    }
}

/// The quantity of the numeric argument at `i`, for a command with `axes`
/// coordinates followed by one value of quantity `last`.
pub open spec fn quantity_at(i: int, axes: int, last: Quantity) -> Quantity {
    if i < axes {
        Quantity::Axis
    } else {
        last
    }
}

/// Reads the arguments of `w`, the words after the first, as `axes`
/// coordinates followed by one value of quantity `last`. A word that is no
/// numeral, or a wrong number of words, is a syntax error; after that, a
/// value outside its range is reported.
fn read_numbers(w: &Vec<Vec<char>>, axes: usize, last: Quantity) -> (r: Result<Vec<i64>, Error>)
    requires
        w.len() >= 1,
        axes < 16,
    ensures
        match r {
            Ok(v) => {
                &&& numerals(seqs(w@).skip(1), axes + 1)
                &&& v.len() == axes + 1
                &&& forall|i: int|
                    0 <= i <= axes ==> #[trigger] v[i] == integer_value(w[i + 1]@) && quantity_at(
                        i,
                        axes as int,
                        last,
                    ).admits(v[i] as int)
            },
            Err(e) => {
                ||| e == Error::Syntax && !numerals(seqs(w@).skip(1), axes + 1)
                ||| {
                    &&& e == Error::ArgumentOutOfRange
                    &&& numerals(seqs(w@).skip(1), axes + 1)
                    &&& exists|i: int|
                        0 <= i <= axes && !quantity_at(i, axes as int, last).admits(
                            integer_value(#[trigger] w[i + 1]@),
                        )
                }
            },
        },
{
    let ghost a = seqs(w@).skip(1);
    if w.len() != axes + 2 {
        return Err(Error::Syntax);
    }
    let mut v: Vec<i64> = Vec::new();
    let mut outside = false;
    let ghost mut witness: int = 0;
    let mut i: usize = 0;
    while i <= axes
        invariant
            i <= axes + 1,
            axes < 16,
            w.len() == axes + 2,
            a == seqs(w@).skip(1),
            v.len() == i,
            forall|k: int| 0 <= k < i ==> is_integer(#[trigger] a[k]),
            !outside ==> forall|k: int|
                0 <= k < i ==> #[trigger] v[k] == integer_value(w[k + 1]@) && quantity_at(
                    k,
                    axes as int,
                    last,
                ).admits(v[k] as int),
            outside ==> 0 <= witness <= axes && !quantity_at(witness, axes as int, last).admits(
                integer_value(w[witness + 1]@),
            ),
        decreases axes + 1 - i,
    {
        let q = if i < axes {
            Quantity::Axis
        } else {
            last
        };
        let (lo, hi) = q.bounds();
        assert(a[i as int] == w[i + 1]@);
        match read_in_range(w[i + 1].as_slice(), lo, hi) {
            Reading::Malformed => {
                return Err(Error::Syntax);
            },
            Reading::OutOfRange => {
                outside = true;
                proof {
                    witness = i as int;
                }
                v.push(0);
            },
            Reading::Value(x) => {
                v.push(x);
            },
        }
        i += 1;
    }
    if outside {
        Err(Error::ArgumentOutOfRange)
    } else {
        Ok(v)
    }
}

impl Command {
    /// The command without arguments `c`, where `w` holds the keyword alone.
    fn plain(w: &Vec<Vec<char>>, c: Command) -> (r: Result<Command, Error>)
        requires
            w.len() >= 1,
        ensures
            match r {
                Ok(d) => bare(seqs(w@).skip(1), c@) == Ok::<CommandView, Error>(d@),
                Err(e) => bare(seqs(w@).skip(1), c@) == Err::<CommandView, Error>(e),
            },
    {
        if w.len() == 1 {
            Ok(c)
        } else {
            Err(Error::Syntax)
        }
    }

    /// The command that the words `w` spell.
    pub fn from_words(w: &Vec<Vec<char>>) -> (r: Result<Command, Error>)
        ensures
            match r {
                Ok(c) => decode_words(seqs(w@)) == Ok::<CommandView, Error>(c@),
                Err(e) => decode_words(seqs(w@)) == Err::<CommandView, Error>(e),
            },
    {
        if w.len() == 0 {
            return Err(Error::Syntax);
        }
        let ghost a = seqs(w@).skip(1);
        assert(seqs(w@)[0] == w[0]@);
        let k = match Keyword::from_chars(w[0].as_slice()) {
            Some(k) => k,
            None => {
                return Err(Error::Syntax);
            },
        };
        match k {
            Keyword::Jump => Err(Error::UnsupportedCommand),
            Keyword::Command => Self::plain(w, Command::Command),
            Keyword::Takeoff => Self::plain(w, Command::Takeoff),
            Keyword::Land => Self::plain(w, Command::Land),
            Keyword::StreamOn => Self::plain(w, Command::StreamOn),
            Keyword::StreamOff => Self::plain(w, Command::StreamOff),
            Keyword::Emergency => Self::plain(w, Command::Emergency),
            Keyword::Stop => Self::plain(w, Command::Stop),
            Keyword::MissionpadOn => Self::plain(w, Command::MissionpadOn),
            Keyword::MissionpadOff => Self::plain(w, Command::MissionpadOff),
            Keyword::ReadSpeed => Self::plain(w, Command::ReadSpeed),
            Keyword::ReadBattery => Self::plain(w, Command::ReadBattery),
            Keyword::ReadTime => Self::plain(w, Command::ReadTime),
            Keyword::ReadWifi => Self::plain(w, Command::ReadWifi),
            Keyword::ReadSdk => Self::plain(w, Command::ReadSdk),
            Keyword::ReadSerialNumber => Self::plain(w, Command::ReadSerialNumber),
            Keyword::Flip => {
                if w.len() != 2 {
                    return Err(Error::Syntax);
                }
                assert(a[0] == w[1]@);
                match FlipCommandArg::from_chars(w[1].as_slice()) {
                    Some(d) => Ok(Command::Flip(d)),
                    None => Err(Error::Syntax),
                }
            },
            Keyword::Wifi => {
                if w.len() != 3 {
                    return Err(Error::Syntax);
                }
                assert(a[0] == w[1]@ && a[1] == w[2]@);
                Ok(
                    Command::Wifi {
                        ssid: string_of(w[1].as_slice()),
                        pass: string_of(w[2].as_slice()),
                    },
                )
            },
            Keyword::AccessPoint => {
                if w.len() != 3 {
                    return Err(Error::Syntax);
                }
                assert(a[0] == w[1]@ && a[1] == w[2]@);
                Ok(
                    Command::AccessPoint {
                        ssid: string_of(w[1].as_slice()),
                        pass: string_of(w[2].as_slice()),
                    },
                )
            },
            Keyword::Go => match read_numbers(w, 3, Quantity::Speed) {
                Ok(v) => {
                    assert(forall|i: int| 0 <= i < 4 ==> #[trigger] a[i] == w[i + 1]@);
                    Ok(
                        Command::Go {
                            x: v[0] as isize,
                            y: v[1] as isize,
                            z: v[2] as isize,
                            speed: v[3] as usize,
                            mid: None,
                        },
                    )
                },
                Err(e) => {
                    assert(w.len() == 5 ==> forall|i: int|
                        0 <= i < 4 ==> #[trigger] a[i] == w[i + 1]@);
                    Err(e)
                },
            },
            Keyword::Curve => match read_numbers(w, 6, Quantity::Speed) {
                Ok(v) => {
                    assert(forall|i: int| 0 <= i < 7 ==> #[trigger] a[i] == w[i + 1]@);
                    Ok(
                        Command::Curve {
                            x1: v[0] as isize,
                            y1: v[1] as isize,
                            z1: v[2] as isize,
                            x2: v[3] as isize,
                            y2: v[4] as isize,
                            z2: v[5] as isize,
                            speed: v[6] as usize,
                            mid: None,
                        },
                    )
                },
                Err(e) => {
                    assert(w.len() == 8 ==> forall|i: int|
                        0 <= i < 7 ==> #[trigger] a[i] == w[i + 1]@);
                    Err(e)
                },
            },
            Keyword::Up => Self::with_number(w, k, Quantity::Distance),
            Keyword::Down => Self::with_number(w, k, Quantity::Distance),
            Keyword::Left => Self::with_number(w, k, Quantity::Distance),
            Keyword::Right => Self::with_number(w, k, Quantity::Distance),
            Keyword::Forward => Self::with_number(w, k, Quantity::Distance),
            Keyword::Back => Self::with_number(w, k, Quantity::Distance),
            Keyword::Clockwise => Self::with_number(w, k, Quantity::Angle),
            Keyword::CounterClockwise => Self::with_number(w, k, Quantity::Angle),
            Keyword::Speed => Self::with_number(w, k, Quantity::Speed),
        }
    }

    /// The keyword opens a command with one number.
    pub open spec fn takes_one_number(k: Keyword) -> bool {
        k is Up || k is Down || k is Left || k is Right || k is Forward || k is Back
            || k is Clockwise || k is CounterClockwise || k is Speed
    }

    /// The quantity of the number of a command with one number.
    pub open spec fn quantity_of(k: Keyword) -> Quantity {
        if k is Clockwise || k is CounterClockwise {
            Quantity::Angle
        } else if k is Speed {
            Quantity::Speed
        } else {
            Quantity::Distance
        }
    }

    /// The command with one number that the words `w` spell, for a keyword
    /// `k` that opens such a command.
    fn with_number(w: &Vec<Vec<char>>, k: Keyword, q: Quantity) -> (r: Result<Command, Error>)
        requires
            w.len() >= 1,
            Self::takes_one_number(k),
            q == Self::quantity_of(k),
        ensures
            match r {
                Ok(c) => read(k, seqs(w@).skip(1)) == Ok::<CommandView, Error>(c@)
                    && c@.sendable() is Ok,
                Err(e) => match read(k, seqs(w@).skip(1)) {
                    Ok(c) => c.sendable() == Err::<(), Error>(e),
                    Err(f) => e == f,
                },
            },
    {
        let ghost a = seqs(w@).skip(1);
        match read_numbers(w, 0, q) {
            Ok(v) => {
                assert(a[0] == w[1]@);
                let n: usize = v[0] as usize;
                Ok(
                    match k {
                        Keyword::Up => Command::Up(n),
                        Keyword::Down => Command::Down(n),
                        Keyword::Left => Command::Left(n),
                        Keyword::Right => Command::Right(n),
                        Keyword::Forward => Command::Forward(n),
                        Keyword::Back => Command::Back(n),
                        Keyword::Clockwise => Command::ClockwiseRotation(n),
                        Keyword::CounterClockwise => Command::CounterClockwiseRotation(n),
                        _ => Command::Speed(n),
                    },
                )
            },
            Err(e) => {
                if w.len() == 2 {
                    assert(a[0] == w[1]@);
                }
                Err(e)
            },
        }
    }

    /// Reads a command from its text: the words of `s`, separated by white
    /// space, are the keyword and its arguments.
    pub fn parse(s: &str) -> (r: Result<Command, Error>)
        ensures
            match r {
                Ok(c) => decode(s@) == Ok::<CommandView, Error>(c@),
                Err(e) => decode(s@) == Err::<CommandView, Error>(e),
            },
    {
        let v = chars_of(s);
        let w = split_words(v.as_slice());
        Self::from_words(&w)
    }

    /// Reads a command from its text; `None` where `parse` reports an error.
    pub fn from_str(s: &str) -> (r: Option<Command>)
        ensures
            match r {
                Some(c) => decode(s@) == Ok::<CommandView, Error>(c@),
                None => decode(s@) is Err,
            },
    {
        match Self::parse(s) {
            Ok(c) => Some(c),
            Err(_) => None,
        }
    }
}

/// The arguments of a command that may be sent are words, and the numeric
/// ones are the numerals of its fields.
pub proof fn lemma_arguments(c: CommandView)
    requires
        c.names_are_words(),
    ensures
        forall|i: int| 0 <= i < c.arguments().len() ==> is_word(#[trigger] c.arguments()[i]),
        c.keyword() matches Some(k) ==> read(k, c.arguments()) == Ok::<CommandView, Error>(c),
{
    let a = c.arguments();
    match c {
        CommandView::Up(n)
        | CommandView::Down(n)
        | CommandView::Left(n)
        | CommandView::Right(n)
        | CommandView::Forward(n)
        | CommandView::Back(n)
        | CommandView::ClockwiseRotation(n)
        | CommandView::CounterClockwiseRotation(n)
        | CommandView::Speed(n) => {
            lemma_int_text(n);
        },
        CommandView::Flip(d) => {
            d.lemma_letter_roundtrip();
        },
        CommandView::Go { x, y, z, speed, mid } => {
            lemma_int_text(x);
            lemma_int_text(y);
            lemma_int_text(z);
            lemma_int_text(speed);
        },
        CommandView::Curve { x1, y1, z1, x2, y2, z2, speed, mid } => {
            lemma_int_text(x1);
            lemma_int_text(y1);
            lemma_int_text(z1);
            lemma_int_text(x2);
            lemma_int_text(y2);
            lemma_int_text(z2);
            lemma_int_text(speed);
        },
        _ => {},
    }
}

/// Round trip: a command that may be sent, and whose names are words, is
/// read back from its wire text as itself.
pub proof fn lemma_decode_wire(c: CommandView)
    requires
        c.sendable() is Ok,
        c.names_are_words(),
    ensures
        decode(c.wire()) == Ok::<CommandView, Error>(c),
{
    let k = c.keyword().unwrap();
    let w = c.wire_words();
    k.lemma_text_roundtrip();
    lemma_arguments(c);
    assert forall|i: int| 0 <= i < w.len() implies is_word(#[trigger] w[i]) by {
        if i > 0 {
            assert(w[i] == c.arguments()[i - 1]);
        }
    }
    lemma_words_of_join(w);
    assert(w.skip(1) =~= c.arguments());
}

/// Whatever is read from a text may be sent: its fields are in range and it
/// has a wire form.
pub proof fn lemma_decoded_may_be_sent(s: Seq<char>)
    ensures
        decode(s) matches Ok(c) ==> c.sendable() is Ok && c.encode() == Ok::<Seq<char>, Error>(
            c.wire(),
        ),
{
}

/// The range gate: a command is formatted exactly where every numeric
/// field lies in its range and the command has a wire form, and a field out
/// of range is always reported as such. On the commands with one number the
/// gate is that number's range.
pub proof fn lemma_range_gate(c: CommandView, n: int)
    ensures
        c.encode() is Ok <==> c.in_range() && c.keyword() is Some,
        !c.in_range() ==> c.encode() == Err::<Seq<char>, Error>(Error::ArgumentOutOfRange),
        CommandView::Up(n).encode() is Ok <==> 20 <= n <= 500,
        CommandView::Down(n).encode() is Ok <==> 20 <= n <= 500,
        CommandView::Left(n).encode() is Ok <==> 20 <= n <= 500,
        CommandView::Right(n).encode() is Ok <==> 20 <= n <= 500,
        CommandView::Forward(n).encode() is Ok <==> 20 <= n <= 500,
        CommandView::Back(n).encode() is Ok <==> 20 <= n <= 500,
        CommandView::ClockwiseRotation(n).encode() is Ok <==> 1 <= n <= 360,
        CommandView::CounterClockwiseRotation(n).encode() is Ok <==> 1 <= n <= 360,
        CommandView::Speed(n).encode() is Ok <==> 10 <= n <= 100,
{
}

/// The range gate of the commands that name a target point: every
/// coordinate between -500 and 500, and the speed between 10 and 100.
pub proof fn lemma_target_gate(x1: int, y1: int, z1: int, x2: int, y2: int, z2: int, speed: int)
    ensures
        (CommandView::Go { x: x1, y: y1, z: z1, speed, mid: None }).encode() is Ok <==> {
            &&& -500 <= x1 <= 500
            &&& -500 <= y1 <= 500
            &&& -500 <= z1 <= 500
            &&& 10 <= speed <= 100
        },
        (CommandView::Curve { x1, y1, z1, x2, y2, z2, speed, mid: None }).encode() is Ok <==> {
            &&& -500 <= x1 <= 500
            &&& -500 <= y1 <= 500
            &&& -500 <= z1 <= 500
            &&& -500 <= x2 <= 500
            &&& -500 <= y2 <= 500
            &&& -500 <= z2 <= 500
            &&& 10 <= speed <= 100
        },
{
}

/// What the robot answered to a command.
#[derive(Debug, PartialEq)]
pub enum CommandResult {
    /// The robot accepted the command.
    Okay,
    /// The robot refused the command.
    Error,
    /// The robot answered with a telemetry record.
    State(State),
    /// The robot answered with some other text.
    Other(String),
}

/// An answer as a mathematical value.
pub enum CommandResultView {
    Okay,
    Error,
    State(StateView),
    Other(Seq<char>),
}

impl View for CommandResult {
    type V = CommandResultView;

    open spec fn view(&self) -> CommandResultView {
        match *self {
            CommandResult::Okay => CommandResultView::Okay,
            CommandResult::Error => CommandResultView::Error,
            CommandResult::State(s) => CommandResultView::State(s@),
            CommandResult::Other(t) => CommandResultView::Other(t@),
        }
    }
}

impl Clone for CommandResult {
    fn clone(&self) -> (r: CommandResult)
        ensures
            r@ == self@,
    {
        match self {
            CommandResult::Okay => CommandResult::Okay,
            CommandResult::Error => CommandResult::Error,
            CommandResult::State(s) => CommandResult::State(s.clone()),
            CommandResult::Other(t) => CommandResult::Other(t.clone()),
        }
    }
}

/// The answer that the text `s` is: `ok`, `error`, a telemetry record, or
/// else the text itself.
pub open spec fn answer_of(s: Seq<char>) -> CommandResultView {
    if s == "ok"@ {
        CommandResultView::Okay
    } else if s == "error"@ {
        CommandResultView::Error
    } else {
        match snapshot_of(s) {
            Some(state) => CommandResultView::State(state),
            None => CommandResultView::Other(s),
        }
    }
}

impl CommandResult {
    /// Reads an answer of the robot. Every text is an answer: what is
    /// neither `ok`, `error` nor a telemetry record is kept as it came.
    pub fn from_str(s: &str) -> (r: CommandResult)
        ensures
            r@ == answer_of(s@),
    {
        let v = chars_of(s);
        if word_is(v.as_slice(), "ok") {
            CommandResult::Okay
        } else if word_is(v.as_slice(), "error") {
            CommandResult::Error
        } else {
            match State::from_str(s) {
                Some(state) => CommandResult::State(state),
                None => CommandResult::Other(s.to_owned()),
            }
        }
    }
}

} // verus!
