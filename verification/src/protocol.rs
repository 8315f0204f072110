use vstd::prelude::*;

use crate::strutil::is_prefix_of;
use crate::strutil::lines_view;
use crate::strutil::starts_with_chars;

verus! {

/// A line that closes a response successfully.
pub open spec fn is_ok_line(l: Seq<char>) -> bool {
    is_prefix_of("OK"@, l)
}

/// A line that closes a response with a protocol error.
pub open spec fn is_ack_line(l: Seq<char>) -> bool {
    is_prefix_of("ACK"@, l)
}

pub open spec fn is_terminator_line(l: Seq<char>) -> bool {
    is_ok_line(l) || is_ack_line(l)
}

/// What a sequence of response lines frames to: the payload before a
/// success terminator, the error line of a failed response, or nothing
/// yet when no terminator has arrived. `used` counts the lines consumed,
/// terminator included; later lines are never touched.
pub ghost enum Frame {
    Complete { payload: Seq<Seq<char>>, used: int },
    Failed { error: Seq<char>, used: int },
    Incomplete,
}

/// Framing of a response: lines are read one at a time; a line opening
/// with `ACK` ends the response as a failure carrying that line; a line
/// opening with `OK` ends it as a success whose payload is every line
/// before it; any other line joins the payload.
pub open spec fn parse_frame(lines: Seq<Seq<char>>) -> Frame
    decreases lines.len(),
{
    if lines.len() == 0 {
        Frame::Incomplete
    } else {
        let l = lines[0];
        if is_ack_line(l) {
            Frame::Failed { error: l, used: 1 }
        } else if is_ok_line(l) {
            Frame::Complete { payload: Seq::empty(), used: 1 }
        } else {
            match parse_frame(lines.drop_first()) {
                Frame::Complete { payload, used } => Frame::Complete {
                    payload: seq![l] + payload,
                    used: used + 1,
                },
                Frame::Failed { error, used } => Frame::Failed { error, used: used + 1 },
                Frame::Incomplete => Frame::Incomplete,
            }
        }
    }
}

/// A response whose first terminator is an `ACK` line fails with exactly
/// that line, and no line after it is consumed.
pub proof fn lemma_ack_stops(lines: Seq<Seq<char>>, i: int)
    requires
        0 <= i < lines.len(),
        is_ack_line(lines[i]),
        forall|j: int| 0 <= j < i ==> !is_terminator_line(#[trigger] lines[j]),
    ensures
        parse_frame(lines) == (Frame::Failed { error: lines[i], used: i + 1 }),
    decreases i,
{
    if i > 0 {
        lemma_ack_stops(lines.drop_first(), i - 1);
    }
}

/// A response whose first terminator is an `OK` line completes with the
/// lines before it as payload, and no line after it is consumed.
pub proof fn lemma_ok_frames(lines: Seq<Seq<char>>, i: int)
    requires
        0 <= i < lines.len(),
        is_ok_line(lines[i]),
        !is_ack_line(lines[i]),
        forall|j: int| 0 <= j < i ==> !is_terminator_line(#[trigger] lines[j]),
    ensures
        parse_frame(lines) == (Frame::Complete { payload: lines.take(i), used: i + 1 }),
    decreases i,
{
    if i == 0 {
        assert(lines.take(0) =~= Seq::<Seq<char>>::empty());
    } else {
        lemma_ok_frames(lines.drop_first(), i - 1);
        assert(seq![lines[0]] + lines.drop_first().take(i - 1) =~= lines.take(i));
    }
}

/// Without a terminator nothing is decided: more lines are needed.
pub proof fn lemma_no_terminator(lines: Seq<Seq<char>>)
    requires
        forall|j: int| 0 <= j < lines.len() ==> !is_terminator_line(#[trigger] lines[j]),
    ensures
        parse_frame(lines) == Frame::Incomplete,
    decreases lines.len(),
{
    if lines.len() > 0 {
        lemma_no_terminator(lines.drop_first());
    }
}

/// The single-slot command queue that guards one connection: at most
/// one command is in flight at a time, whatever concurrent triggers ask,
/// independently of the router's own message ordering.
pub struct CommandSlot<C> {
    pub in_flight: Option<C>,
}

impl<C> CommandSlot<C> {
    /// A free slot: nothing is in flight.
    pub fn new() -> (r: Self)
        ensures
            r.in_flight is None,
    {
        CommandSlot { in_flight: None }
    }

    /// Claim the slot for a command. Refused while another command's
    /// response is still outstanding; the slot then keeps what it held.
    pub fn begin(&mut self, cmd: C) -> (claimed: bool)
        ensures
            old(self).in_flight is None ==> claimed && final(self).in_flight == Some(cmd),
            old(self).in_flight is Some ==> !claimed
                && final(self).in_flight == old(self).in_flight,
    {
        match self.in_flight {
            None => {
                self.in_flight = Some(cmd);
                true
            },
            Some(_) => false,
        }
    }

    /// Release the slot once the command's full response has been read.
    pub fn finish(&mut self)
        ensures
            final(self).in_flight is None,
    {
        self.in_flight = None;
    }
}

/// A line decides a response one way alone: none opens with both `OK`
/// and `ACK`.
pub proof fn lemma_terminators_exclusive(l: Seq<char>)
    ensures
        !(is_ok_line(l) && is_ack_line(l)),
{
    reveal_strlit("OK");
    reveal_strlit("ACK");
    if is_ok_line(l) && is_ack_line(l) {
        assert(l.take(2)[0] == l[0]);
        assert(l.take(3)[0] == l[0]);
    }
}

/// What feeding lines one at a time into a response in flight yields,
/// starting from the payload lines `acc` already collected.
pub open spec fn run_steps(acc: Seq<Seq<char>>, lines: Seq<Seq<char>>) -> Frame
    decreases lines.len(),
{
    if lines.len() == 0 {
        Frame::Incomplete
    } else {
        let l = lines[0];
        if is_ack_line(l) {
            Frame::Failed { error: l, used: 1 }
        } else if is_ok_line(l) {
            Frame::Complete { payload: acc, used: 1 }
        } else {
            match run_steps(acc.push(l), lines.drop_first()) {
                Frame::Complete { payload, used } => Frame::Complete { payload, used: used + 1 },
                Frame::Failed { error, used } => Frame::Failed { error, used: used + 1 },
                Frame::Incomplete => Frame::Incomplete,
            }
        }
    }
}

/// Feeding a response line by line agrees with framing it whole: the
/// one-at-a-time reading collects exactly the payload that `parse_frame`
/// names, behind whatever was already collected.
pub proof fn lemma_steps_agree_with_frame(acc: Seq<Seq<char>>, lines: Seq<Seq<char>>)
    ensures
        parse_frame(lines) matches Frame::Complete { payload, used } ==> run_steps(acc, lines)
            == (Frame::Complete { payload: acc + payload, used }),
        parse_frame(lines) matches Frame::Failed { error, used } ==> run_steps(acc, lines)
            == (Frame::Failed { error, used }),
        parse_frame(lines) is Incomplete ==> run_steps(acc, lines) is Incomplete,
    decreases lines.len(),
{
    if lines.len() == 0 {
    } else {
        let l = lines[0];
        if is_ack_line(l) {
        } else if is_ok_line(l) {
            assert(acc + Seq::<Seq<char>>::empty() =~= acc);
        } else {
            lemma_steps_agree_with_frame(acc.push(l), lines.drop_first());
            match parse_frame(lines.drop_first()) {
                Frame::Complete { payload, used } => {
                    assert(acc.push(l) + payload =~= acc + (seq![l] + payload));
                },
                _ => {},
            }
        }
    }
}

/// The payload lines collected so far for one response in flight.
pub struct ResponseParser {
    pub payload: Vec<String>,
}

/// What one more line makes of a response in flight.
pub enum ParserStep {
    Pending(ResponseParser),
    Complete(Vec<String>),
    Failed(String),
}

impl ResponseParser {
    pub fn new() -> (r: Self)
        ensures
            r.payload@.len() == 0,
    {
        ResponseParser { payload: Vec::new() }
    }

    /// Feed the next line read from the connection.
    pub fn push_line(self, line: String) -> (r: ParserStep)
        ensures
            is_ack_line(line@) ==> (r matches ParserStep::Failed(e) && e@ == line@),
            !is_ack_line(line@) && is_ok_line(line@) ==> (r matches ParserStep::Complete(p)
                && p@ == self.payload@),
            !is_terminator_line(line@) ==> (r matches ParserStep::Pending(q) && q.payload@
                == self.payload@.push(line)),
    {
        if starts_with_chars(line.as_str(), "ACK") {
            ParserStep::Failed(line)
        } else if starts_with_chars(line.as_str(), "OK") {
            ParserStep::Complete(self.payload)
        } else {
            let mut next = self;
            next.payload.push(line);
            ParserStep::Pending(next)
        }
    }
}

/// A fully framed response, or the want of one.
pub enum FrameResult {
    Complete { payload: Vec<String>, used: usize },
    Failed { error: String, used: usize },
    Incomplete,
}

pub open spec fn frame_result_view(r: FrameResult) -> Frame {
    match r {
        FrameResult::Complete { payload, used } => Frame::Complete {
            payload: lines_view(payload@),
            used: used as int,
        },
        FrameResult::Failed { error, used } => Frame::Failed {
            error: error@,
            used: used as int,
        },
        FrameResult::Incomplete => Frame::Incomplete,
    }
}

/// Frame one response out of the given lines, first line first.
pub fn parse_response(lines: &Vec<String>) -> (r: FrameResult)
    ensures
        frame_result_view(r) == parse_frame(lines_view(lines@)),
{
    let ghost all = lines_view(lines@);
    proof {
        assert(all.len() == lines@.len());
        assert(forall|j: int| 0 <= j < lines@.len() ==> all[j] == #[trigger] lines@[j]@);
    }
    let mut payload: Vec<String> = Vec::new();
    let mut i: usize = 0;
    while i < lines.len()
        invariant
            0 <= i <= lines@.len(),
            all == lines_view(lines@),
            all.len() == lines@.len(),
            forall|j: int| 0 <= j < lines@.len() ==> all[j] == #[trigger] lines@[j]@,
            forall|j: int| 0 <= j < i ==> !is_terminator_line(#[trigger] all[j]),
            payload@.len() == i,
            forall|j: int| 0 <= j < i ==> #[trigger] payload@[j]@ == all[j],
        decreases lines@.len() - i,
    {
        let line = &lines[i];
        if starts_with_chars(line.as_str(), "ACK") {
            proof {
                lemma_ack_stops(all, i as int);
            }
            return FrameResult::Failed { error: line.clone(), used: i + 1 };
        }
        if starts_with_chars(line.as_str(), "OK") {
            proof {
                lemma_ok_frames(all, i as int);
                assert forall|j: int| 0 <= j < i implies lines_view(payload@)[j] == all.take(
                    i as int,
                )[j] by {
                    assert(lines_view(payload@)[j] == payload@[j]@);
                }
                assert(lines_view(payload@) =~= all.take(i as int));
            }
            return FrameResult::Complete { payload, used: i + 1 };
        }
        payload.push(line.clone());
        i += 1;
    }
    proof {
        lemma_no_terminator(all);
    }
    FrameResult::Incomplete
}

} // verus!
