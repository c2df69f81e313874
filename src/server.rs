use vstd::prelude::*;

use crate::actuator::DutyCycles;
use crate::protocol::{
    command_of_line,
    invalid_text,
    parse_command,
    push_invalid,
    push_status,
    status_text,
};

verus! {

/// What one received line asks of the controller: the bytes to send back to the peer and
/// the duty cycles to apply to the four wheel outputs, in their fixed order.
#[derive(Debug)]
pub struct LineResponse {
    pub reply: Vec<u8>,
    pub duties: DutyCycles,
}

/// The state that one connection threads through its read, parse, reply and actuate cycle:
/// the (left, right) velocities last commanded, (0, 0) before the first command.
#[derive(Clone, Copy, Debug, PartialEq, Eq, Structural)]
pub struct Session {
    pub left: i32,
    pub right: i32,
}

/// The state after a line: the command it carries, or the previous state for a malformed one.
pub open spec fn next_state(s: Session, line: Seq<char>) -> Session {
    match command_of_line(line) {
        Some((l, r)) => Session { left: l, right: r },
        None => s,
    }
}

/// The reply to a line: the status of the new state, after a notice for a malformed line.
pub open spec fn reply_text(s: Session, line: Seq<char>) -> Seq<u8> {
    let n = next_state(s, line);
    if command_of_line(line) is Some {
        status_text(n.left as int, n.right as int)
    } else {
        invalid_text() + status_text(n.left as int, n.right as int)
    }
}

impl Session {
    /// A fresh connection: both wheels at rest.
    pub fn new() -> (r: Session)
        ensures
            r == (Session { left: 0, right: 0 }),
    {
        Session { left: 0, right: 0 }
    }

    /// Handles one received line. The state takes the command that the line carries and
    /// stays as it was for a malformed line; either way the reply reports the new state and
    /// the actuator is driven with it.
    pub fn handle_line(&mut self, line: &str) -> (r: LineResponse)
        ensures
            *final(self) == next_state(*old(self), line@),
            r.reply@ == reply_text(*old(self), line@),
            r.duties.drives(final(self).left as int, final(self).right as int),
            r.duties.exclusive(),
    {
        let mut reply: Vec<u8> = Vec::new();
        match parse_command(line) {
            Some((l, r)) => {
                self.left = l;
                self.right = r;
            },
            None => {
                push_invalid(&mut reply);
            },
        }
        push_status(&mut reply, self.left, self.right);
        let duties = DutyCycles::for_velocities(self.left, self.right);
        LineResponse { reply, duties }
    }
}

/// A malformed line changes nothing: the state is kept and the reply reports it, after the
/// notice.
pub proof fn lemma_malformed_line_keeps_state(s: Session, line: Seq<char>)
    requires
        command_of_line(line) is None,
    ensures
        next_state(s, line) == s,
        reply_text(s, line) == invalid_text() + status_text(s.left as int, s.right as int),
{
}

/// Each well-formed line replaces the state wholly, whatever came before: the last of a run
/// of commands is the one in force.
pub proof fn lemma_command_overrides(s: Session, t: Session, first: Seq<char>, second: Seq<char>)
    requires
        command_of_line(second) is Some,
    ensures
        next_state(next_state(s, first), second) == next_state(t, second),
{
}

} // verus!
