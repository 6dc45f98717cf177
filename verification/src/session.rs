//! The client side of the bridge: how a frame that a client sent is cut
//! into commands, and what is written back for each outcome.

use crate::channel::{Event, EventView, Mode, Outcome, OutcomeView};
use crate::cmd::{
    decode, lemma_decode_wire, Command, CommandResult, CommandResultView, CommandView,
};
use crate::number::lemma_int_text_chars;
use crate::error::Error;
use crate::state::{State, StateView};
use crate::text::{
    chars_of, lemma_index_of, lemma_join_chars, seqs, split, split_on, string_of, trim, trimmed,
};
use vstd::prelude::*;

verus! {

/// The character that closes each command in a frame.
pub const FRAME_MARKER: char = 'A';

/// A line break, which a frame may hold anywhere and which counts for
/// nothing.
pub open spec fn is_line_break(c: char) -> bool {
    c == '\n' || c == '\r'
}

/// `s` without its line breaks.
pub open spec fn without_line_breaks(s: Seq<char>) -> Seq<char>
    decreases s.len(),
{
    if s.len() == 0 {
        s
    } else if is_line_break(s.last()) {
        without_line_breaks(s.drop_last())
    } else {
        without_line_breaks(s.drop_last()).push(s.last())
    }
}

/// The pieces of `p` that are not empty, in order.
pub open spec fn non_empty(p: Seq<Seq<char>>) -> Seq<Seq<char>>
    decreases p.len(),
{
    if p.len() == 0 {
        p
    } else if p.last().len() == 0 {
        non_empty(p.drop_last())
    } else {
        non_empty(p.drop_last()).push(p.last())
    }
}

/// The pieces of `p` without repetitions: each piece stands where it
/// occurs first.
pub open spec fn first_occurrences(p: Seq<Seq<char>>) -> Seq<Seq<char>>
    decreases p.len(),
{
    if p.len() == 0 {
        p
    } else if first_occurrences(p.drop_last()).contains(p.last()) {
        first_occurrences(p.drop_last())
    } else {
        first_occurrences(p.drop_last()).push(p.last())
    }
}

/// The command texts of the frame `s`, in the order sent: line breaks are
/// dropped, the rest is cut at each marker, and empty pieces are left out.
pub open spec fn frame_parts(s: Seq<char>) -> Seq<Seq<char>> {
    non_empty(split_on(without_line_breaks(s), FRAME_MARKER))
}

/// The command texts of the frame `s` that are dispatched: those of
/// `frame_parts`, each once, in the order of their first occurrence.
pub open spec fn frame_commands(s: Seq<char>) -> Seq<Seq<char>> {
    first_occurrences(frame_parts(s))
}

/// Collapsing repetitions keeps every piece, each exactly once.
pub proof fn lemma_first_occurrences(p: Seq<Seq<char>>)
    ensures
        first_occurrences(p).no_duplicates(),
        forall|x: Seq<char>| first_occurrences(p).contains(x) <==> p.contains(x),
        first_occurrences(p).len() <= p.len(),
    decreases p.len(),
{
    if p.len() > 0 {
        let front = p.drop_last();
        let last = p.last();
        let r = first_occurrences(front);
        let q = first_occurrences(p);
        lemma_first_occurrences(front);
        assert forall|x: Seq<char>| q.contains(x) <==> p.contains(x) by {
            assert(r.contains(x) <==> front.contains(x));
            if front.contains(x) {
                let i = choose|i: int| 0 <= i < front.len() && front[i] == x;
                assert(p[i] == x);
            }
            if p.contains(x) && x != last {
                let i = choose|i: int| 0 <= i < p.len() && p[i] == x;
                assert(front[i] == x);
            }
            assert(p[p.len() - 1] == last);
            if r.contains(last) {
                assert(q == r);
            } else {
                assert(q == r.push(last));
                assert(q[r.len() as int] == last);
                if r.contains(x) {
                    let k = choose|k: int| 0 <= k < r.len() && r[k] == x;
                    assert(q[k] == x);
                }
                if q.contains(x) {
                    let k = choose|k: int| 0 <= k < q.len() && q[k] == x;
                    if k < r.len() {
                        assert(r[k] == x);
                    }
                }
            }
        }
    }
}

/// Where `x` stands first in `p`; the length of `p` where it does not occur.
pub open spec fn first_position(p: Seq<Seq<char>>, x: Seq<char>) -> int
    decreases p.len(),
{
    if p.len() == 0 {
        0
    } else if first_position(p.drop_last(), x) < p.len() - 1 {
        first_position(p.drop_last(), x)
    } else if p.last() == x {
        p.len() - 1
    } else {
        p.len() as int
    }
}

/// `first_position` is the least index at which the piece stands.
pub proof fn lemma_first_position(p: Seq<Seq<char>>, x: Seq<char>)
    ensures
        0 <= first_position(p, x) <= p.len(),
        first_position(p, x) < p.len() <==> p.contains(x),
        first_position(p, x) < p.len() ==> p[first_position(p, x)] == x,
        forall|k: int| 0 <= k < first_position(p, x) ==> p[k] != x,
    decreases p.len(),
{
    if p.len() > 0 {
        let front = p.drop_last();
        lemma_first_position(front, x);
        let k = first_position(front, x);
        if k < p.len() - 1 {
            assert(p[k] == x);
        } else {
            if p.last() == x {
                assert(p[p.len() - 1] == x);
            }
            if p.contains(x) {
                let i = choose|i: int| 0 <= i < p.len() && p[i] == x;
                if i < p.len() - 1 {
                    assert(front[i] == x);
                }
            }
        }
        assert forall|j: int| 0 <= j < first_position(p, x) implies p[j] != x by {
            if j < front.len() {
                assert(front[j] == p[j]);
            }
        }
    }
}

/// Collapsing repetitions keeps the order: of two pieces that are kept,
/// the one that comes first is the one that occurred first.
pub proof fn lemma_first_occurrences_order(p: Seq<Seq<char>>, i: int, j: int)
    requires
        0 <= i < j < first_occurrences(p).len(),
    ensures
        first_position(p, first_occurrences(p)[i]) < first_position(p, first_occurrences(p)[j]),
    decreases p.len(),
{
    if p.len() > 0 {
        let front = p.drop_last();
        let last = p.last();
        let r = first_occurrences(front);
        let q = first_occurrences(p);
        lemma_first_occurrences(front);
        lemma_first_position(front, q[i]);
        lemma_first_position(front, q[j]);
        assert(r.contains(q[i])) by {
            assert(r[i] == q[i]);
        }
        if j < r.len() {
            assert(r.contains(q[j])) by {
                assert(r[j] == q[j]);
            }
            lemma_first_occurrences_order(front, i, j);
        } else {
            assert(q[j] == last);
            assert(!r.contains(last));
        }
    }
}

/// The character sequences that the strings of `v` hold.
pub open spec fn texts(v: Seq<String>) -> Seq<Seq<char>> {
    Seq::new(v.len(), |i: int| v[i]@)
}

/// Whether `a` and `b` hold the same characters.
fn same_chars(a: &[char], b: &[char]) -> (r: bool)
    ensures
        r == (a@ == b@),
{
    if a.len() != b.len() {
        return false;
    }
    let mut i: usize = 0;
    while i < a.len()
        invariant
            i <= a.len(),
            a.len() == b.len(),
            a@.take(i as int) == b@.take(i as int),
        decreases a.len() - i,
    {
        if a[i] != b[i] {
            return false;
        }
        proof {
            assert(a@.take(i + 1) =~= a@.take(i as int).push(a@[i as int]));
            assert(b@.take(i + 1) =~= b@.take(i as int).push(b@[i as int]));
        }
        i += 1;
    }
    proof {
        assert(a@.take(a.len() as int) =~= a@);
        assert(b@.take(b.len() as int) =~= b@);
    }
    true
}

/// Whether one of `v` holds the characters of `x`.
fn holds(v: &Vec<Vec<char>>, x: &[char]) -> (r: bool)
    ensures
        r == seqs(v@).contains(x@),
{
    let mut i: usize = 0;
    while i < v.len()
        invariant
            i <= v.len(),
            forall|k: int| 0 <= k < i ==> seqs(v@)[k] != x@,
        decreases v.len() - i,
    {
        if same_chars(v[i].as_slice(), x) {
            assert(seqs(v@)[i as int] == x@);
            return true;
        }
        i += 1;
    }
    false
}

/// The characters of `s` without the line breaks.
fn strip_line_breaks(v: &[char]) -> (r: Vec<char>)
    ensures
        r@ == without_line_breaks(v@),
{
    let mut r: Vec<char> = Vec::new();
    let mut i: usize = 0;
    while i < v.len()
        invariant
            i <= v.len(),
            r@ == without_line_breaks(v@.take(i as int)),
        decreases v.len() - i,
    {
        proof {
            assert(v@.take(i + 1).drop_last() =~= v@.take(i as int));
        }
        if v[i] != '\n' && v[i] != '\r' {
            r.push(v[i]);
        }
        i += 1;
    }
    proof {
        assert(v@.take(v.len() as int) =~= v@);
    }
    r
}

/// The command texts of the frame `v`, in the order sent; with
/// `collapse`, without repetitions.
fn cut_frame(v: &[char], collapse: bool) -> (r: Vec<Vec<char>>)
    ensures
        seqs(r@) == if collapse {
            frame_commands(v@)
        } else {
            frame_parts(v@)
        },
{
    let clean = strip_line_breaks(v);
    let pieces = split(clean.as_slice(), FRAME_MARKER);
    let ghost all = seqs(pieces@);
    let mut r: Vec<Vec<char>> = Vec::new();
    let mut i: usize = 0;
    proof {
        assert(seqs(r@) =~= Seq::<Seq<char>>::empty());
        assert(all.take(0) =~= Seq::<Seq<char>>::empty());
    }
    while i < pieces.len()
        invariant
            i <= pieces.len(),
            all == seqs(pieces@),
            seqs(r@) == if collapse {
                first_occurrences(non_empty(all.take(i as int)))
            } else {
                non_empty(all.take(i as int))
            },
        decreases pieces.len() - i,
    {
        proof {
            assert(all.take(i + 1).drop_last() =~= all.take(i as int));
            assert(all.take(i + 1).last() == pieces[i as int]@);
            let kept = non_empty(all.take(i as int));
            assert(kept.push(pieces[i as int]@).drop_last() =~= kept);
        }
        if pieces[i].len() > 0 && !(collapse && holds(&r, pieces[i].as_slice())) {
            let piece = pieces[i].clone();
            proof {
                assert(piece@ =~= pieces[i as int]@);
                assert(seqs(r@.push(piece)) =~= seqs(r@).push(piece@));
            }
            r.push(piece);
        }
        i += 1;
    }
    proof {
        assert(all.take(pieces.len() as int) =~= all);
    }
    r
}

/// The strings of the character vectors of `v`.
fn to_strings(v: &Vec<Vec<char>>) -> (r: Vec<String>)
    ensures
        texts(r@) == seqs(v@),
{
    let mut r: Vec<String> = Vec::new();
    let mut i: usize = 0;
    while i < v.len()
        invariant
            i <= v.len(),
            texts(r@) == seqs(v@).take(i as int),
        decreases v.len() - i,
    {
        let s = string_of(v[i].as_slice());
        proof {
            assert(texts(r@.push(s)) =~= texts(r@).push(s@));
            assert(seqs(v@).take(i + 1) =~= seqs(v@).take(i as int).push(v[i as int]@));
        }
        r.push(s);
        i += 1;
    }
    proof {
        assert(seqs(v@).take(v.len() as int) =~= seqs(v@));
    }
    r
}

/// The frame that carries the line `line`: the line with the marker after
/// it, without white space at either end.
pub fn close_frame(line: &str) -> (r: String)
    ensures
        r@ == trim(line@.push(FRAME_MARKER)),
{
    let mut v = chars_of(line);
    v.push(FRAME_MARKER);
    let t = trimmed(v.as_slice());
    string_of(t.as_slice())
}

/// Cuts a frame into its command texts, strictly in the order sent:
/// nothing is reordered and nothing that is repeated is dropped.
pub fn split_frame(frame: &str) -> (r: Vec<String>)
    ensures
        texts(r@) == frame_parts(frame@),
{
    let v = chars_of(frame);
    let parts = cut_frame(v.as_slice(), false);
    to_strings(&parts)
}

/// Cuts a frame into the command texts that are dispatched: in the order
/// sent, with each text that is repeated within the frame taken once, where
/// it stands first.
pub fn split_frame_once(frame: &str) -> (r: Vec<String>)
    ensures
        texts(r@) == frame_commands(frame@),
{
    let v = chars_of(frame);
    let parts = cut_frame(v.as_slice(), true);
    to_strings(&parts)
}

/// What is done with one command text of a frame.
#[derive(Debug, PartialEq)]
pub enum Request {
    /// The text is a command that may be sent: it goes to the channel.
    Run(Command),
    /// The text is refused: the client is told why, and the channel is not
    /// touched.
    Refuse(Error),
}

/// A request as a mathematical value.
pub enum RequestView {
    Run(CommandView),
    Refuse(Error),
}

impl View for Request {
    type V = RequestView;

    open spec fn view(&self) -> RequestView {
        match *self {
            Request::Run(c) => RequestView::Run(c@),
            Request::Refuse(e) => RequestView::Refuse(e),
        }
    }
}

/// What is done with the command text `s`.
pub open spec fn request_of(s: Seq<char>) -> RequestView {
    match decode(s) {
        Ok(c) => RequestView::Run(c),
        Err(e) => RequestView::Refuse(e),
    }
}

/// The requests that the vector `v` holds, as mathematical values.
pub open spec fn requests(v: Seq<Request>) -> Seq<RequestView> {
    Seq::new(v.len(), |i: int| v[i]@)
}

/// What is done with each command text of the frame `s`, in order.
pub open spec fn plan_of(s: Seq<char>) -> Seq<RequestView> {
    Seq::new(frame_commands(s).len(), |i: int| request_of(frame_commands(s)[i]))
}

/// Reads one command text of a client.
pub fn read_request(text: &str) -> (r: Request)
    ensures
        r@ == request_of(text@),
{
    match Command::parse(text) {
        Ok(c) => Request::Run(c),
        Err(e) => Request::Refuse(e),
    }
}

/// Reads a frame of a client: what is done with each of its command
/// texts, in the order sent, a repeated text taken once.
pub fn plan_frame(frame: &str) -> (r: Vec<Request>)
    ensures
        requests(r@) == plan_of(frame@),
{
    let parts = split_frame_once(frame);
    let mut r: Vec<Request> = Vec::new();
    let mut i: usize = 0;
    while i < parts.len()
        invariant
            i <= parts.len(),
            texts(parts@) == frame_commands(frame@),
            requests(r@) == plan_of(frame@).take(i as int),
        decreases parts.len() - i,
    {
        let request = read_request(parts[i].as_str());
        proof {
            assert(texts(parts@)[i as int] == parts[i as int]@);
            assert(requests(r@.push(request)) =~= requests(r@).push(request@));
            assert(plan_of(frame@).take(i + 1) =~= plan_of(frame@).take(i as int).push(
                request_of(frame_commands(frame@)[i as int]),
            ));
        }
        r.push(request);
        i += 1;
    }
    proof {
        assert(plan_of(frame@).take(parts.len() as int) =~= plan_of(frame@));
    }
    r
}

/// How a command is run where the caller does not say: the stick command
/// gets no reply, every other command is answered.
pub open spec fn mode_of(c: CommandView) -> Mode {
    if c is Rc {
        Mode::FireAndForget
    } else {
        Mode::Request
    }
}

/// The event that hands `command` to the channel at time `now`, in the
/// mode of its kind.
pub fn submit(command: Command, now: u64) -> (e: Event)
    ensures
        e@ == (EventView::Submit { command: command@, mode: mode_of(command@), now }),
{
    let mode = if command.expects_reply() {
        Mode::Request
    } else {
        Mode::FireAndForget
    };
    Event::Submit { command, mode, now }
}

/// What is written back to a client.
#[derive(Debug, PartialEq)]
pub enum Reply {
    /// The text, as it is.
    Text(String),
    /// The snapshot, in the client's encoding of snapshots.
    Telemetry(State),
}

/// A reply as a mathematical value.
pub enum ReplyView {
    Text(Seq<char>),
    Telemetry(StateView),
}

impl View for Reply {
    type V = ReplyView;

    open spec fn view(&self) -> ReplyView {
        match *self {
            Reply::Text(t) => ReplyView::Text(t@),
            Reply::Telemetry(s) => ReplyView::Telemetry(s@),
        }
    }
}

/// The reply that tells a client of the failure `e`.
pub open spec fn refusal_of(e: Error) -> ReplyView {
    ReplyView::Text(e.text())
}

/// The reply that carries the answer `r` of the robot: the answer's own
/// text, or the snapshot where the answer was a telemetry record.
pub open spec fn answer_reply(r: CommandResultView) -> ReplyView {
    match r {
        CommandResultView::Okay => ReplyView::Text("ok"@),
        CommandResultView::Error => ReplyView::Text("error"@),
        CommandResultView::State(s) => ReplyView::Telemetry(s),
        CommandResultView::Other(t) => ReplyView::Text(t),
    }
}

/// What is written back for the outcome `o`: nothing for a command that
/// gets no reply, the answer of the robot, or the failure.
pub open spec fn reply_of(o: OutcomeView) -> Option<ReplyView> {
    match o {
        OutcomeView::Sent => None,
        OutcomeView::Replied(r) => Some(answer_reply(r)),
        OutcomeView::Failed(e) => Some(refusal_of(e)),
    }
}

/// The reply that tells a client of the failure `e`.
pub fn refusal(e: Error) -> (r: Reply)
    ensures
        r@ == refusal_of(e),
{
    Reply::Text(e.message().to_owned())
}

/// What is written back to the client for `outcome`.
pub fn reply(outcome: &Outcome) -> (r: Option<Reply>)
    ensures
        match r {
            Some(x) => reply_of(outcome@) == Some(x@),
            None => reply_of(outcome@) is None,
        },
{
    match outcome {
        Outcome::Sent => None,
        Outcome::Replied(CommandResult::Okay) => Some(Reply::Text("ok".to_owned())),
        Outcome::Replied(CommandResult::Error) => Some(Reply::Text("error".to_owned())),
        Outcome::Replied(CommandResult::State(s)) => Some(Reply::Telemetry(s.clone())),
        Outcome::Replied(CommandResult::Other(t)) => Some(Reply::Text(t.clone())),
        Outcome::Failed(e) => Some(refusal(*e)),
    }
}

/// A character that the framing leaves alone: neither the marker nor a
/// line break.
pub open spec fn is_plain(c: char) -> bool {
    c != FRAME_MARKER && !is_line_break(c)
}

/// The framing leaves every character of `s` alone.
pub open spec fn all_plain(s: Seq<char>) -> bool {
    forall|i: int| 0 <= i < s.len() ==> is_plain(#[trigger] s[i])
}

/// The names that a command carries hold neither the marker nor a line
/// break.
pub open spec fn names_are_plain(c: CommandView) -> bool {
    match c {
        CommandView::Wifi { ssid, pass } | CommandView::AccessPoint { ssid, pass } => all_plain(
            ssid,
        ) && all_plain(pass),
        _ => true,
    }
}

/// A text without line breaks loses nothing when they are dropped.
pub proof fn lemma_no_line_breaks(s: Seq<char>)
    requires
        forall|i: int| 0 <= i < s.len() ==> !is_line_break(#[trigger] s[i]),
    ensures
        without_line_breaks(s) == s,
    decreases s.len(),
{
    if s.len() > 0 {
        lemma_no_line_breaks(s.drop_last());
        assert(s.drop_last().push(s.last()) =~= s);
    }
}

/// A text that the framing leaves alone is a frame of one command, that
/// text, with the marker after it or without.
pub proof fn lemma_plain_frame(s: Seq<char>)
    requires
        all_plain(s),
        s.len() > 0,
    ensures
        frame_commands(s) == seq![s],
        frame_commands(s.push(FRAME_MARKER)) == seq![s],
{
    let none = Seq::<Seq<char>>::empty();
    let one = seq![s];
    assert(one.drop_last() =~= none);
    assert(one.last() == s);
    assert(non_empty(none) =~= none);
    assert(non_empty(one) =~= one);
    assert(first_occurrences(none) =~= none);
    assert(!none.contains(s));
    assert(first_occurrences(one) =~= one);

    lemma_no_line_breaks(s);
    lemma_index_of(s, FRAME_MARKER, s.len() as int);
    assert(split_on(s, FRAME_MARKER) == one);

    let t = s.push(FRAME_MARKER);
    lemma_no_line_breaks(t);
    lemma_index_of(t, FRAME_MARKER, s.len() as int);
    assert(t.take(s.len() as int) =~= s);
    assert(t.skip(s.len() as int + 1) =~= Seq::<char>::empty());
    let two = seq![s, Seq::<char>::empty()];
    assert(split_on(Seq::<char>::empty(), FRAME_MARKER) =~= seq![Seq::<char>::empty()]);
    assert(split_on(t, FRAME_MARKER) =~= two);
    assert(two.drop_last() =~= one);
    assert(non_empty(two) == non_empty(one));
}

/// The wire text of a command that may be sent is left alone by the
/// framing, where the names that the command carries are.
pub proof fn lemma_wire_is_plain(c: CommandView)
    requires
        c.sendable() is Ok,
        names_are_plain(c),
    ensures
        all_plain(c.wire()),
        c.wire().len() > 0,
{
    let k = c.keyword().unwrap();
    let w = c.wire_words();
    let a = c.arguments();
    k.lemma_small_letters();
    k.lemma_text_roundtrip();
    let plain = |ch: char| is_plain(ch);
    assert forall|i: int, j: int| 0 <= i < w.len() && 0 <= j < w[i].len() implies plain(
        #[trigger] w[i][j],
    ) by {
        if i > 0 {
            assert(w[i] == a[i - 1]);
            lemma_argument_is_plain(c, i - 1);
            assert(is_plain(a[i - 1][j]));
        } else {
            assert(w[0] == k.text());
        }
    }
    lemma_join_chars(w, plain);
    assert forall|i: int| 0 <= i < c.wire().len() implies is_plain(#[trigger] c.wire()[i]) by {
        assert(plain(c.wire()[i]));
    }
}

/// Each argument of a command is left alone by the framing, where the
/// names that the command carries are.
pub proof fn lemma_argument_is_plain(c: CommandView, i: int)
    requires
        names_are_plain(c),
        0 <= i < c.arguments().len(),
    ensures
        all_plain(c.arguments()[i]),
{
    let t = c.arguments()[i];
    match c {
        CommandView::Up(n)
        | CommandView::Down(n)
        | CommandView::Left(n)
        | CommandView::Right(n)
        | CommandView::Forward(n)
        | CommandView::Back(n)
        | CommandView::ClockwiseRotation(n)
        | CommandView::CounterClockwiseRotation(n)
        | CommandView::Speed(n) => {
            lemma_int_text_chars(n);
        },
        CommandView::Flip(d) => {
            reveal_strlit("l");
            reveal_strlit("r");
            reveal_strlit("f");
            reveal_strlit("b");
        },
        CommandView::Go { x, y, z, speed, mid } => {
            lemma_int_text_chars(x);
            lemma_int_text_chars(y);
            lemma_int_text_chars(z);
            lemma_int_text_chars(speed);
        },
        CommandView::Curve { x1, y1, z1, x2, y2, z2, speed, mid } => {
            lemma_int_text_chars(x1);
            lemma_int_text_chars(y1);
            lemma_int_text_chars(z1);
            lemma_int_text_chars(x2);
            lemma_int_text_chars(y2);
            lemma_int_text_chars(z2);
            lemma_int_text_chars(speed);
        },
        _ => {},
    }
    assert forall|j: int| 0 <= j < t.len() implies is_plain(#[trigger] t[j]) by {}
}

/// From the wire to the channel: a frame that holds the wire text of one
/// command that may be sent, with the marker after it or without, is a
/// plan of one request, to run that command.
pub proof fn lemma_framed_command(c: CommandView)
    requires
        c.sendable() is Ok,
        c.names_are_words(),
        names_are_plain(c),
    ensures
        plan_of(c.wire()) == seq![RequestView::Run(c)],
        plan_of(c.wire().push(FRAME_MARKER)) == seq![RequestView::Run(c)],
{
    lemma_wire_is_plain(c);
    lemma_plain_frame(c.wire());
    lemma_decode_wire(c);
    assert(plan_of(c.wire()) =~= seq![RequestView::Run(c)]);
    assert(plan_of(c.wire().push(FRAME_MARKER)) =~= seq![RequestView::Run(c)]);
}

} // verus!
