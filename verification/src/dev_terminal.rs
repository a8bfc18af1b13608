//! The line source as the console sees it: at most one request for a line
//! is in flight, and the host polls for its result.
use vstd::prelude::*;

verus! {

/// A line that the line source has read, or the reason why it could not
/// (the end of the input, or an interrupt).
#[derive(Debug, PartialEq, Eq)]
pub struct ReadedLine(pub Result<String, String>);

impl ReadedLine {
    /// Whether the host should take this as a request to leave: the line
    /// source has failed, so no further line will come.
    pub fn asks_to_exit(&self) -> (exit: bool)
        ensures
            exit == self.0 is Err,
    {
        self.0.is_err()
    }
}

/// What the host is to do after it has asked for a line.
#[derive(Clone, Copy, Debug, PartialEq, Eq, Structural)]
pub enum LineRequest {
    /// Start reading a line in the background.
    Start,
    /// A request is in flight already: do nothing but log it.
    Refused,
}

/// The state of the line source: idle, or one request in flight.
#[derive(Clone, Copy, Debug, PartialEq, Eq, Structural)]
pub struct SafeInput {
    pub in_flight: bool,
}

impl Default for SafeInput {
    fn default() -> (input: SafeInput)
        ensures
            !input.in_flight,
    {
        SafeInput { in_flight: false }
    }
}

impl SafeInput {
    /// Whether no request is in flight, so that the host may ask for a line.
    pub fn is_none(&self) -> (idle: bool)
        ensures
            idle == !self.in_flight,
    {
        !self.in_flight
    }

    /// Asks for a new line. While a request is in flight a second one is
    /// refused and the state stays as it is.
    pub fn read_new_line(&mut self) -> (request: LineRequest)
        ensures
            final(self).in_flight,
            request == (if old(self).in_flight {
                LineRequest::Refused
            } else {
                LineRequest::Start
            }),
    {
        if self.in_flight {
            LineRequest::Refused
        } else {
            self.in_flight = true;
            LineRequest::Start
        }
    }

    /// Takes what polling the request in flight gave. Once the result is
    /// there the source is idle again and the line is handed on; a result
    /// that comes while nothing is in flight is dropped.
    pub fn receive_task(&mut self, polled: Option<Result<String, String>>) -> (line: Option<
        ReadedLine,
    >)
        ensures
            line == (if old(self).in_flight {
                match polled {
                    Some(result) => Some(ReadedLine(result)),
                    None => None,
                }
            } else {
                None
            }),
            final(self).in_flight == (old(self).in_flight && polled is None),
    {
        if !self.in_flight {
            return None;
        }
        match polled {
            Some(result) => {
                self.in_flight = false;
                Some(ReadedLine(result))
            },
            None => None,
        }
    }

    /// One tick of the host: asks for a line where none is awaited.
    pub fn update_terminal(&mut self) -> (request: Option<LineRequest>)
        ensures
            final(self).in_flight,
            request == (if old(self).in_flight {
                None
            } else {
                Some(LineRequest::Start)
            }),
    {
        if self.is_none() {
            Some(self.read_new_line())
        } else {
            None
        }
    }
}

} // verus!
