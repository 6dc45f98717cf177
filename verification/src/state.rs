//! The telemetry codec: the snapshot that the robot reports, and how it is
//! read from a record on the wire.

use crate::error::Error;
use crate::measurement::{is_measurement, lemma_zero_text, zero_text, Measurement};
use crate::number::{isize_of, parse_isize, parse_usize, usize_of};
use crate::text::{chars_of, seqs, split, split_on, trim, trimmed, word_is};
use vstd::prelude::*;

verus! {

/// The number of pieces into which the semicolons cut a record: sixteen
/// fields, each closed by a semicolon, and what follows the last.
pub const RECORD_PIECES: usize = 17;

/// Three measurements along the axes of the robot.
#[derive(Debug, PartialEq, Eq)]
pub struct PointState {
    pub x: Measurement,
    pub y: Measurement,
    pub z: Measurement,
}

/// A triple of measurements as a mathematical value: the three numerals.
pub struct PointView {
    pub x: Seq<char>,
    pub y: Seq<char>,
    pub z: Seq<char>,
}

impl PointView {
    /// The triple of zeros.
    pub open spec fn zero() -> PointView {
        PointView { x: zero_text(), y: zero_text(), z: zero_text() }
    }

    /// Each of the three is the numeral of a measurement.
    pub open spec fn wf(self) -> bool {
        is_measurement(self.x) && is_measurement(self.y) && is_measurement(self.z)
    }
}

impl View for PointState {
    type V = PointView;

    open spec fn view(&self) -> PointView {
        PointView { x: self.x@, y: self.y@, z: self.z@ }
    }
}

impl Clone for PointState {
    fn clone(&self) -> (r: PointState)
        ensures
            r@ == self@,
    {
        PointState { x: self.x.clone(), y: self.y.clone(), z: self.z.clone() }
    }
}

impl Default for PointState {
    fn default() -> (r: PointState)
        ensures
            r@ == PointView::zero(),
    {
        PointState { x: Measurement::zero(), y: Measurement::zero(), z: Measurement::zero() }
    }
}

/// A telemetry snapshot.
#[derive(Debug, PartialEq, Eq)]
pub struct State {
    pub pitch: isize,
    pub roll: isize,
    pub yaw: isize,
    pub speeds: PointState,
    pub temp_low: usize,
    pub temp_high: usize,
    pub time_of_flight: usize,
    pub height: usize,
    pub battery: usize,
    pub barometer: Measurement,
    pub time: usize,
    pub accelerations: PointState,
}

/// A snapshot as a mathematical value.
pub struct StateView {
    pub pitch: isize,
    pub roll: isize,
    pub yaw: isize,
    pub speeds: PointView,
    pub temp_low: usize,
    pub temp_high: usize,
    pub time_of_flight: usize,
    pub height: usize,
    pub battery: usize,
    pub barometer: Seq<char>,
    pub time: usize,
    pub accelerations: PointView,
}

impl StateView {
    /// The snapshot in which every measurement is zero.
    pub open spec fn zero() -> StateView {
        StateView {
            pitch: 0,
            roll: 0,
            yaw: 0,
            speeds: PointView::zero(),
            temp_low: 0,
            temp_high: 0,
            time_of_flight: 0,
            height: 0,
            battery: 0,
            barometer: zero_text(),
            time: 0,
            accelerations: PointView::zero(),
        }
    }

    /// Every measurement of the snapshot is the numeral of one.
    pub open spec fn wf(self) -> bool {
        self.speeds.wf() && is_measurement(self.barometer) && self.accelerations.wf()
    }
}

impl View for State {
    type V = StateView;

    open spec fn view(&self) -> StateView {
        StateView {
            pitch: self.pitch,
            roll: self.roll,
            yaw: self.yaw,
            speeds: self.speeds@,
            temp_low: self.temp_low,
            temp_high: self.temp_high,
            time_of_flight: self.time_of_flight,
            height: self.height,
            battery: self.battery,
            barometer: self.barometer@,
            time: self.time,
            accelerations: self.accelerations@,
        }
    }
}

impl Clone for State {
    fn clone(&self) -> (r: State)
        ensures
            r@ == self@,
    {
        State {
            pitch: self.pitch,
            roll: self.roll,
            yaw: self.yaw,
            speeds: self.speeds.clone(),
            temp_low: self.temp_low,
            temp_high: self.temp_high,
            time_of_flight: self.time_of_flight,
            height: self.height,
            battery: self.battery,
            barometer: self.barometer.clone(),
            time: self.time,
            accelerations: self.accelerations.clone(),
        }
    }
}

impl Default for State {
    fn default() -> (r: State)
        ensures
            r@ == StateView::zero(),
    {
        State {
            pitch: 0,
            roll: 0,
            yaw: 0,
            speeds: PointState::default(),
            temp_low: 0,
            temp_high: 0,
            time_of_flight: 0,
            height: 0,
            battery: 0,
            barometer: Measurement::zero(),
            time: 0,
            accelerations: PointState::default(),
        }
    }
}

/// A record half read: the snapshot as far as it is filled, and the triple
/// that is being collected until its third axis arrives.
pub struct Progress {
    pub state: StateView,
    pub point: PointView,
}

impl Progress {
    /// Nothing read yet.
    pub open spec fn start() -> Progress {
        Progress { state: StateView::zero(), point: PointView::zero() }
    }

    /// Every measurement read so far is the numeral of one.
    pub open spec fn wf(self) -> bool {
        self.state.wf() && self.point.wf()
    }
}

/// Stores the signed `value` where `put` says, or fails where `value` is no
/// signed numeral that fits.
pub open spec fn with_signed(
    acc: Progress,
    value: Seq<char>,
    put: spec_fn(StateView, isize) -> StateView,
) -> Option<Progress> {
    match isize_of(value) {
        Some(n) => Some(Progress { state: put(acc.state, n), point: acc.point }),
        None => None,
    }
}

/// Stores the unsigned `value` where `put` says, or fails where `value` is
/// no unsigned numeral that fits.
pub open spec fn with_unsigned(
    acc: Progress,
    value: Seq<char>,
    put: spec_fn(StateView, usize) -> StateView,
) -> Option<Progress> {
    match usize_of(value) {
        Some(n) => Some(Progress { state: put(acc.state, n), point: acc.point }),
        None => None,
    }
}

/// The keys whose value is a measurement.
pub open spec fn is_measured(key: Seq<char>) -> bool {
    key == "baro"@ || key == "vgx"@ || key == "vgy"@ || key == "vgz"@ || key == "agx"@ || key
        == "agy"@ || key == "agz"@
}

/// Stores the measurement `value` where its key says: the pressure in the
/// snapshot, a first or second axis in the triple that is being collected,
/// and a third axis with that triple in the snapshot, after which a new
/// triple is started.
pub open spec fn with_measurement(acc: Progress, key: Seq<char>, value: Seq<char>) -> Progress {
    if key == "baro"@ {
        Progress { state: StateView { barometer: value, ..acc.state }, point: acc.point }
    } else if key == "vgx"@ || key == "agx"@ {
        Progress { state: acc.state, point: PointView { x: value, ..acc.point } }
    } else if key == "vgy"@ || key == "agy"@ {
        Progress { state: acc.state, point: PointView { y: value, ..acc.point } }
    } else if key == "vgz"@ {
        Progress {
            state: StateView { speeds: PointView { z: value, ..acc.point }, ..acc.state },
            point: PointView::zero(),
        }
    } else {
        Progress {
            state: StateView { accelerations: PointView { z: value, ..acc.point }, ..acc.state },
            point: PointView::zero(),
        }
    }
}

/// What the field `key:value` does to a record half read. A key that is not
/// known changes nothing; a known key with a value that cannot be read
/// fails.
pub open spec fn assign(acc: Progress, key: Seq<char>, value: Seq<char>) -> Option<Progress> {
    if key == "pitch"@ {
        with_signed(acc, value, |s: StateView, n: isize| StateView { pitch: n, ..s })
    } else if key == "roll"@ {
        with_signed(acc, value, |s: StateView, n: isize| StateView { roll: n, ..s })
    } else if key == "yaw"@ {
        with_signed(acc, value, |s: StateView, n: isize| StateView { yaw: n, ..s })
    } else if key == "templ"@ {
        with_unsigned(acc, value, |s: StateView, n: usize| StateView { temp_low: n, ..s })
    } else if key == "temph"@ {
        with_unsigned(acc, value, |s: StateView, n: usize| StateView { temp_high: n, ..s })
    } else if key == "tof"@ {
        with_unsigned(acc, value, |s: StateView, n: usize| StateView { time_of_flight: n, ..s })
    } else if key == "h"@ {
        with_unsigned(acc, value, |s: StateView, n: usize| StateView { height: n, ..s })
    } else if key == "bat"@ {
        with_unsigned(acc, value, |s: StateView, n: usize| StateView { battery: n, ..s })
    } else if key == "time"@ {
        with_unsigned(acc, value, |s: StateView, n: usize| StateView { time: n, ..s })
    } else if is_measured(key) {
        if is_measurement(value) {
            Some(with_measurement(acc, key, value))
        } else {
            None
        }
    } else {
        Some(acc)
    }
}

/// What one piece of a record does to a record half read: a piece that is
/// not a key and a value with one colon between them changes nothing.
pub open spec fn absorb(acc: Progress, piece: Seq<char>) -> Option<Progress> {
    let parts = split_on(piece, ':');
    if parts.len() == 2 {
        assign(acc, parts[0], parts[1])
    } else {
        Some(acc)
    }
}

/// What the pieces of a record, taken in order, do to a record half read.
pub open spec fn absorb_all(acc: Progress, pieces: Seq<Seq<char>>) -> Option<Progress>
    decreases pieces.len(),
{
    if pieces.len() == 0 {
        Some(acc)
    } else {
        match absorb(acc, pieces[0]) {
            None => None,
            Some(next) => absorb_all(next, pieces.skip(1)),
        }
    }
}

/// The pieces of the record `s`: white space at both ends is dropped, and
/// the rest is cut at each semicolon.
pub open spec fn pieces_of(s: Seq<char>) -> Seq<Seq<char>> {
    split_on(trim(s), ';')
}

/// The snapshot that the record `s` holds: `s` must have the right number
/// of pieces, and every known key in it a value that can be read.
pub open spec fn snapshot_of(s: Seq<char>) -> Option<StateView> {
    if pieces_of(s).len() != RECORD_PIECES {
        None
    } else {
        match absorb_all(Progress::start(), pieces_of(s)) {
            Some(p) => Some(p.state),
            None => None,
        }
    }
}

/// A snapshot and a triple as one record half read.
pub open spec fn progress(state: State, point: PointState) -> Progress {
    Progress { state: state@, point: point@ }
}

/// Applies the field `key:value` to a record half read.
fn assign_field(state: State, point: PointState, key: &[char], value: &[char]) -> (r: Option<
    (State, PointState),
>)
    ensures
        match r {
            Some((s, p)) => assign(progress(state, point), key@, value@) == Some(progress(s, p)),
            None => assign(progress(state, point), key@, value@) is None,
        },
{
    if word_is(key, "pitch") {
        match parse_isize(value) {
            Some(n) => Some((State { pitch: n, ..state }, point)),
            None => None,
        }
    } else if word_is(key, "roll") {
        match parse_isize(value) {
            Some(n) => Some((State { roll: n, ..state }, point)),
            None => None,
        }
    } else if word_is(key, "yaw") {
        match parse_isize(value) {
            Some(n) => Some((State { yaw: n, ..state }, point)),
            None => None,
        }
    } else if word_is(key, "templ") {
        match parse_usize(value) {
            Some(n) => Some((State { temp_low: n, ..state }, point)),
            None => None,
        }
    } else if word_is(key, "temph") {
        match parse_usize(value) {
            Some(n) => Some((State { temp_high: n, ..state }, point)),
            None => None,
        }
    } else if word_is(key, "tof") {
        match parse_usize(value) {
            Some(n) => Some((State { time_of_flight: n, ..state }, point)),
            None => None,
        }
    } else if word_is(key, "h") {
        match parse_usize(value) {
            Some(n) => Some((State { height: n, ..state }, point)),
            None => None,
        }
    } else if word_is(key, "bat") {
        match parse_usize(value) {
            Some(n) => Some((State { battery: n, ..state }, point)),
            None => None,
        }
    } else if word_is(key, "time") {
        match parse_usize(value) {
            Some(n) => Some((State { time: n, ..state }, point)),
            None => None,
        }
    } else {
        let pressure = word_is(key, "baro");
        let x = word_is(key, "vgx") || word_is(key, "agx");
        let y = word_is(key, "vgy") || word_is(key, "agy");
        let speeds = word_is(key, "vgz");
        let accelerations = word_is(key, "agz");
        if !(pressure || x || y || speeds || accelerations) {
            return Some((state, point));
        }
        let m = match Measurement::from_chars(value) {
            Some(m) => m,
            None => {
                return None;
            },
        };
        if pressure {
            Some((State { barometer: m, ..state }, point))
        } else if x {
            Some((state, PointState { x: m, ..point }))
        } else if y {
            Some((state, PointState { y: m, ..point }))
        } else if speeds {
            Some((State { speeds: PointState { z: m, ..point }, ..state }, PointState::default()))
        } else {
            Some(
                (
                    State { accelerations: PointState { z: m, ..point }, ..state },
                    PointState::default(),
                ),
            )
        }
    }
}

impl State {
    /// Reads a snapshot from a telemetry record. The record is all or
    /// nothing: `None` where it has the wrong number of pieces or a known
    /// key with a value that cannot be read.
    pub fn from_str(s: &str) -> (r: Option<State>)
        ensures
            match r {
                Some(state) => snapshot_of(s@) == Some(state@),
                None => snapshot_of(s@) is None,
            },
    {
        let v = chars_of(s);
        let t = trimmed(v.as_slice());
        let pieces = split(t.as_slice(), ';');
        if pieces.len() != RECORD_PIECES {
            return None;
        }
        let ghost all = seqs(pieces@);
        assert(all == pieces_of(s@));
        let mut state = State::default();
        let mut point = PointState::default();
        let mut i: usize = 0;
        proof {
            assert(all.skip(0) =~= all);
        }
        while i < pieces.len()
            invariant
                i <= pieces.len(),
                all == seqs(pieces@),
                all == pieces_of(s@),
                all.len() == RECORD_PIECES,
                absorb_all(Progress::start(), all) == absorb_all(
                    progress(state, point),
                    all.skip(i as int),
                ),
            decreases pieces.len() - i,
        {
            let parts = split(pieces[i].as_slice(), ':');
            proof {
                assert(all.skip(i as int)[0] == pieces[i as int]@);
                assert(all.skip(i as int).skip(1) =~= all.skip(i + 1));
            }
            if parts.len() == 2 {
                assert(seqs(parts@)[0] == parts[0]@ && seqs(parts@)[1] == parts[1]@);
                match assign_field(state, point, parts[0].as_slice(), parts[1].as_slice()) {
                    Some((s, p)) => {
                        state = s;
                        point = p;
                    },
                    None => {
                        return None;
                    },
                }
            }
            i += 1;
        }
        Some(state)
    }

    /// Reads a snapshot from a telemetry record, and reports a record
    /// that holds none as malformed.
    pub fn parse(s: &str) -> (r: Result<State, Error>)
        ensures
            match r {
                Ok(state) => snapshot_of(s@) == Some(state@),
                Err(e) => e == Error::MalformedTelemetry && snapshot_of(s@) is None,
            },
    {
        match State::from_str(s) {
            Some(state) => Ok(state),
            None => Err(Error::MalformedTelemetry),
        }
    }
}

/// A record with any other number of pieces than the protocol fixes holds
/// no snapshot.
pub proof fn lemma_piece_count(s: Seq<char>)
    ensures
        pieces_of(s).len() != RECORD_PIECES ==> snapshot_of(s) is None,
        snapshot_of(s) is Some ==> pieces_of(s).len() == RECORD_PIECES,
{
}

/// Reading fields keeps every measurement the numeral of one.
pub proof fn lemma_absorb_all_wf(acc: Progress, pieces: Seq<Seq<char>>)
    requires
        acc.wf(),
    ensures
        absorb_all(acc, pieces) matches Some(p) ==> p.wf(),
    decreases pieces.len(),
{
    if pieces.len() > 0 {
        lemma_zero_text();
        match absorb(acc, pieces[0]) {
            Some(next) => {
                lemma_absorb_all_wf(next, pieces.skip(1));
            },
            None => {},
        }
    }
}

/// Every measurement of a snapshot that was read is the numeral of one.
pub proof fn lemma_snapshot_wf(s: Seq<char>)
    ensures
        snapshot_of(s) matches Some(state) ==> state.wf(),
{
    lemma_zero_text();
    lemma_absorb_all_wf(Progress::start(), pieces_of(s));
}

} // verus!
