//! The first word of a command line, which selects the command.

use crate::text::{is_whitespace, is_word, word_is};
use vstd::prelude::*;

verus! {

/// The words that can open a command line.
#[derive(Debug, Clone, Copy, PartialEq, Eq, Structural)]
pub enum Keyword {
    Command,
    Takeoff,
    Land,
    StreamOn,
    StreamOff,
    Emergency,
    Up,
    Down,
    Left,
    Right,
    Forward,
    Back,
    Clockwise,
    CounterClockwise,
    Flip,
    Go,
    Stop,
    Curve,
    Jump,
    Speed,
    Wifi,
    MissionpadOn,
    MissionpadOff,
    AccessPoint,
    ReadSpeed,
    ReadBattery,
    ReadTime,
    ReadWifi,
    ReadSdk,
    ReadSerialNumber,
}

impl Keyword {
    /// The word as it stands on the wire.
    pub open spec fn text(self) -> Seq<char> {
        match self {
            Keyword::Command => "command"@,
            Keyword::Takeoff => "takeoff"@,
            Keyword::Land => "land"@,
            Keyword::StreamOn => "streamon"@,
            Keyword::StreamOff => "streamoff"@,
            Keyword::Emergency => "emergency"@,
            Keyword::Up => "up"@,
            Keyword::Down => "down"@,
            Keyword::Left => "left"@,
            Keyword::Right => "right"@,
            Keyword::Forward => "forward"@,
            Keyword::Back => "back"@,
            Keyword::Clockwise => "cw"@,
            Keyword::CounterClockwise => "ccw"@,
            Keyword::Flip => "flip"@,
            Keyword::Go => "go"@,
            Keyword::Stop => "stop"@,
            Keyword::Curve => "curve"@,
            Keyword::Jump => "jump"@,
            Keyword::Speed => "speed"@,
            Keyword::Wifi => "wifi"@,
            Keyword::MissionpadOn => "mon"@,
            Keyword::MissionpadOff => "moff"@,
            Keyword::AccessPoint => "ap"@,
            Keyword::ReadSpeed => "speed?"@,
            Keyword::ReadBattery => "battery?"@,
            Keyword::ReadTime => "time?"@,
            Keyword::ReadWifi => "wifi?"@,
            Keyword::ReadSdk => "sdk?"@,
            Keyword::ReadSerialNumber => "sn?"@,
        }
    }

    /// The keyword that `s` is, if any.
    pub open spec fn of_text(s: Seq<char>) -> Option<Keyword> {
        if s == "command"@ {
            Some(Keyword::Command)
        } else if s == "takeoff"@ {
            Some(Keyword::Takeoff)
        } else if s == "land"@ {
            Some(Keyword::Land)
        } else if s == "streamon"@ {
            Some(Keyword::StreamOn)
        } else if s == "streamoff"@ {
            Some(Keyword::StreamOff)
        } else if s == "emergency"@ {
            Some(Keyword::Emergency)
        } else if s == "up"@ {
            Some(Keyword::Up)
        } else if s == "down"@ {
            Some(Keyword::Down)
        } else if s == "left"@ {
            Some(Keyword::Left)
        } else if s == "right"@ {
            Some(Keyword::Right)
        } else if s == "forward"@ {
            Some(Keyword::Forward)
        } else if s == "back"@ {
            Some(Keyword::Back)
        } else if s == "cw"@ {
            Some(Keyword::Clockwise)
        } else if s == "ccw"@ {
            Some(Keyword::CounterClockwise)
        } else if s == "flip"@ {
            Some(Keyword::Flip)
        } else if s == "go"@ {
            Some(Keyword::Go)
        } else if s == "stop"@ {
            Some(Keyword::Stop)
        } else if s == "curve"@ {
            Some(Keyword::Curve)
        } else if s == "jump"@ {
            Some(Keyword::Jump)
        } else if s == "speed"@ {
            Some(Keyword::Speed)
        } else if s == "wifi"@ {
            Some(Keyword::Wifi)
        } else if s == "mon"@ {
            Some(Keyword::MissionpadOn)
        } else if s == "moff"@ {
            Some(Keyword::MissionpadOff)
        } else if s == "ap"@ {
            Some(Keyword::AccessPoint)
        } else if s == "speed?"@ {
            Some(Keyword::ReadSpeed)
        } else if s == "battery?"@ {
            Some(Keyword::ReadBattery)
        } else if s == "time?"@ {
            Some(Keyword::ReadTime)
        } else if s == "wifi?"@ {
            Some(Keyword::ReadWifi)
        } else if s == "sdk?"@ {
            Some(Keyword::ReadSdk)
        } else if s == "sn?"@ {
            Some(Keyword::ReadSerialNumber)
        } else {
            None
        }
    }

    /// The word as it stands on the wire.
    pub fn as_str(&self) -> (s: &'static str)
        ensures
            s@ == self.text(),
    {
        match self {
            Keyword::Command => "command",
            Keyword::Takeoff => "takeoff",
            Keyword::Land => "land",
            Keyword::StreamOn => "streamon",
            Keyword::StreamOff => "streamoff",
            Keyword::Emergency => "emergency",
            Keyword::Up => "up",
            Keyword::Down => "down",
            Keyword::Left => "left",
            Keyword::Right => "right",
            Keyword::Forward => "forward",
            Keyword::Back => "back",
            Keyword::Clockwise => "cw",
            Keyword::CounterClockwise => "ccw",
            Keyword::Flip => "flip",
            Keyword::Go => "go",
            Keyword::Stop => "stop",
            Keyword::Curve => "curve",
            Keyword::Jump => "jump",
            Keyword::Speed => "speed",
            Keyword::Wifi => "wifi",
            Keyword::MissionpadOn => "mon",
            Keyword::MissionpadOff => "moff",
            Keyword::AccessPoint => "ap",
            Keyword::ReadSpeed => "speed?",
            Keyword::ReadBattery => "battery?",
            Keyword::ReadTime => "time?",
            Keyword::ReadWifi => "wifi?",
            Keyword::ReadSdk => "sdk?",
            Keyword::ReadSerialNumber => "sn?",
        }
    }

    /// The keyword that the characters of `v` spell, if any.
    pub fn from_chars(v: &[char]) -> (r: Option<Keyword>)
        ensures
            r == Self::of_text(v@),
    {
        if word_is(v, "command") {
            Some(Keyword::Command)
        } else if word_is(v, "takeoff") {
            Some(Keyword::Takeoff)
        } else if word_is(v, "land") {
            Some(Keyword::Land)
        } else if word_is(v, "streamon") {
            Some(Keyword::StreamOn)
        } else if word_is(v, "streamoff") {
            Some(Keyword::StreamOff)
        } else if word_is(v, "emergency") {
            Some(Keyword::Emergency)
        } else if word_is(v, "up") {
            Some(Keyword::Up)
        } else if word_is(v, "down") {
            Some(Keyword::Down)
        } else if word_is(v, "left") {
            Some(Keyword::Left)
        } else if word_is(v, "right") {
            Some(Keyword::Right)
        } else if word_is(v, "forward") {
            Some(Keyword::Forward)
        } else if word_is(v, "back") {
            Some(Keyword::Back)
        } else if word_is(v, "cw") {
            Some(Keyword::Clockwise)
        } else if word_is(v, "ccw") {
            Some(Keyword::CounterClockwise)
        } else if word_is(v, "flip") {
            Some(Keyword::Flip)
        } else if word_is(v, "go") {
            Some(Keyword::Go)
        } else if word_is(v, "stop") {
            Some(Keyword::Stop)
        } else if word_is(v, "curve") {
            Some(Keyword::Curve)
        } else if word_is(v, "jump") {
            Some(Keyword::Jump)
        } else if word_is(v, "speed") {
            Some(Keyword::Speed)
        } else if word_is(v, "wifi") {
            Some(Keyword::Wifi)
        } else if word_is(v, "mon") {
            Some(Keyword::MissionpadOn)
        } else if word_is(v, "moff") {
            Some(Keyword::MissionpadOff)
        } else if word_is(v, "ap") {
            Some(Keyword::AccessPoint)
        } else if word_is(v, "speed?") {
            Some(Keyword::ReadSpeed)
        } else if word_is(v, "battery?") {
            Some(Keyword::ReadBattery)
        } else if word_is(v, "time?") {
            Some(Keyword::ReadTime)
        } else if word_is(v, "wifi?") {
            Some(Keyword::ReadWifi)
        } else if word_is(v, "sdk?") {
            Some(Keyword::ReadSdk)
        } else if word_is(v, "sn?") {
            Some(Keyword::ReadSerialNumber)
        } else {
            None
        }
    }

    /// The characters of each keyword.
    pub proof fn lemma_spelling()
        ensures
            "command"@ == seq!['c', 'o', 'm', 'm', 'a', 'n', 'd'],
            "takeoff"@ == seq!['t', 'a', 'k', 'e', 'o', 'f', 'f'],
            "land"@ == seq!['l', 'a', 'n', 'd'],
            "streamon"@ == seq!['s', 't', 'r', 'e', 'a', 'm', 'o', 'n'],
            "streamoff"@ == seq!['s', 't', 'r', 'e', 'a', 'm', 'o', 'f', 'f'],
            "emergency"@ == seq!['e', 'm', 'e', 'r', 'g', 'e', 'n', 'c', 'y'],
            "up"@ == seq!['u', 'p'],
            "down"@ == seq!['d', 'o', 'w', 'n'],
            "left"@ == seq!['l', 'e', 'f', 't'],
            "right"@ == seq!['r', 'i', 'g', 'h', 't'],
            "forward"@ == seq!['f', 'o', 'r', 'w', 'a', 'r', 'd'],
            "back"@ == seq!['b', 'a', 'c', 'k'],
            "cw"@ == seq!['c', 'w'],
            "ccw"@ == seq!['c', 'c', 'w'],
            "flip"@ == seq!['f', 'l', 'i', 'p'],
            "go"@ == seq!['g', 'o'],
            "stop"@ == seq!['s', 't', 'o', 'p'],
            "curve"@ == seq!['c', 'u', 'r', 'v', 'e'],
            "jump"@ == seq!['j', 'u', 'm', 'p'],
            "speed"@ == seq!['s', 'p', 'e', 'e', 'd'],
            "wifi"@ == seq!['w', 'i', 'f', 'i'],
            "mon"@ == seq!['m', 'o', 'n'],
            "moff"@ == seq!['m', 'o', 'f', 'f'],
            "ap"@ == seq!['a', 'p'],
            "speed?"@ == seq!['s', 'p', 'e', 'e', 'd', '?'],
            "battery?"@ == seq!['b', 'a', 't', 't', 'e', 'r', 'y', '?'],
            "time?"@ == seq!['t', 'i', 'm', 'e', '?'],
            "wifi?"@ == seq!['w', 'i', 'f', 'i', '?'],
            "sdk?"@ == seq!['s', 'd', 'k', '?'],
            "sn?"@ == seq!['s', 'n', '?'],
    {
        reveal_strlit("command");
        assert("command"@ =~= seq!['c', 'o', 'm', 'm', 'a', 'n', 'd']);
        reveal_strlit("takeoff");
        assert("takeoff"@ =~= seq!['t', 'a', 'k', 'e', 'o', 'f', 'f']);
        reveal_strlit("land");
        assert("land"@ =~= seq!['l', 'a', 'n', 'd']);
        reveal_strlit("streamon");
        assert("streamon"@ =~= seq!['s', 't', 'r', 'e', 'a', 'm', 'o', 'n']);
        reveal_strlit("streamoff");
        assert("streamoff"@ =~= seq!['s', 't', 'r', 'e', 'a', 'm', 'o', 'f', 'f']);
        reveal_strlit("emergency");
        assert("emergency"@ =~= seq!['e', 'm', 'e', 'r', 'g', 'e', 'n', 'c', 'y']);
        reveal_strlit("up");
        assert("up"@ =~= seq!['u', 'p']);
        reveal_strlit("down");
        assert("down"@ =~= seq!['d', 'o', 'w', 'n']);
        reveal_strlit("left");
        assert("left"@ =~= seq!['l', 'e', 'f', 't']);
        reveal_strlit("right");
        assert("right"@ =~= seq!['r', 'i', 'g', 'h', 't']);
        reveal_strlit("forward");
        assert("forward"@ =~= seq!['f', 'o', 'r', 'w', 'a', 'r', 'd']);
        reveal_strlit("back");
        assert("back"@ =~= seq!['b', 'a', 'c', 'k']);
        reveal_strlit("cw");
        assert("cw"@ =~= seq!['c', 'w']);
        reveal_strlit("ccw");
        assert("ccw"@ =~= seq!['c', 'c', 'w']);
        reveal_strlit("flip");
        assert("flip"@ =~= seq!['f', 'l', 'i', 'p']);
        reveal_strlit("go");
        assert("go"@ =~= seq!['g', 'o']);
        reveal_strlit("stop");
        assert("stop"@ =~= seq!['s', 't', 'o', 'p']);
        reveal_strlit("curve");
        assert("curve"@ =~= seq!['c', 'u', 'r', 'v', 'e']);
        reveal_strlit("jump");
        assert("jump"@ =~= seq!['j', 'u', 'm', 'p']);
        reveal_strlit("speed");
        assert("speed"@ =~= seq!['s', 'p', 'e', 'e', 'd']);
        reveal_strlit("wifi");
        assert("wifi"@ =~= seq!['w', 'i', 'f', 'i']);
        reveal_strlit("mon");
        assert("mon"@ =~= seq!['m', 'o', 'n']);
        reveal_strlit("moff");
        assert("moff"@ =~= seq!['m', 'o', 'f', 'f']);
        reveal_strlit("ap");
        assert("ap"@ =~= seq!['a', 'p']);
        reveal_strlit("speed?");
        assert("speed?"@ =~= seq!['s', 'p', 'e', 'e', 'd', '?']);
        reveal_strlit("battery?");
        assert("battery?"@ =~= seq!['b', 'a', 't', 't', 'e', 'r', 'y', '?']);
        reveal_strlit("time?");
        assert("time?"@ =~= seq!['t', 'i', 'm', 'e', '?']);
        reveal_strlit("wifi?");
        assert("wifi?"@ =~= seq!['w', 'i', 'f', 'i', '?']);
        reveal_strlit("sdk?");
        assert("sdk?"@ =~= seq!['s', 'd', 'k', '?']);
        reveal_strlit("sn?");
        assert("sn?"@ =~= seq!['s', 'n', '?']);
    }

    /// Every keyword is a word, and is read back as itself.
    pub proof fn lemma_text_roundtrip(self)
        ensures
            is_word(self.text()),
            Self::of_text(self.text()) == Some(self),
    {
        Self::lemma_spelling();
        let t = self.text();
        assert forall|i: int| 0 <= i < t.len() implies !is_whitespace(#[trigger] t[i]) by {}
    }

    /// Every keyword is written in small letters and the question mark.
    pub proof fn lemma_small_letters(self)
        ensures
            forall|i: int|
                0 <= i < self.text().len() ==> 'a' <= #[trigger] self.text()[i] <= 'z'
                    || self.text()[i] == '?',
    {
        Self::lemma_spelling();
        let t = self.text();
        assert forall|i: int| 0 <= i < t.len() implies 'a' <= #[trigger] t[i] <= 'z' || t[i]
            == '?' by {}
    }
}

} // verus!
