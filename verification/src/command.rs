//! The benchmark's configuration as plain values. Command-line parsing is
//! the shell's job; it fills these in and hands them to the library.

use vstd::prelude::*;

use crate::date::Date;

verus! {

/// Arguments shared by every command: the server, the factor names, and the
/// fan-out of the worker set.
pub struct CommonArgs {
    pub host: String,
    pub factor: Vec<String>,
    pub connection: usize,
    pub stream: usize,
}

impl CommonArgs {
    /// The size of the worker set: one worker per connection and stream
    /// slot, or nothing if that number does not fit the machine.
    pub fn worker_count(&self) -> (r: Option<usize>)
        ensures
            (match r {
                Some(n) => n == self.connection * self.stream,
                None => self.connection * self.stream > usize::MAX,
            }),
    {
        self.connection.checked_mul(self.stream)
    }
}

/// A time of day as plain fields.
#[derive(Clone, Copy, Debug, PartialEq, Eq)]
pub struct Time {
    pub hour: u8,
    pub minute: u8,
    pub second: u8,
}

impl Time {
    pub open spec fn valid(self) -> bool {
        self.hour < 24 && self.minute < 60 && self.second < 60
    }

    pub fn new(hour: u8, minute: u8, second: u8) -> (r: Option<Time>)
        ensures
            r is Some <==> (hour < 24 && minute < 60 && second < 60),
            r is Some ==> r->Some_0 == (Time { hour, minute, second }),
    {
        if hour < 24 && minute < 60 && second < 60 {
            Some(Time { hour, minute, second })
        } else {
            None
        }
    }
}

/// The time of day a benchmark request asks for when none is given.
pub fn default_time() -> (t: Time)
    ensures
        t == (Time { hour: 10, minute: 0, second: 0 }),
        t.valid(),
{
    Time { hour: 10, minute: 0, second: 0 }
}

/// Arguments of the benchmark command: which date and time of day the
/// repeated request asks for.
#[derive(Clone, Copy, Debug, PartialEq, Eq)]
pub struct BenchArgs {
    pub date: Date,
    pub time: Time,
}

/// What the user asked for: a steady-state benchmark against one request, or
/// a bulk pull across a range of days. The command-line shell parses into its
/// own copy of this and converts.
pub enum Command {
    Bench { a1: CommonArgs, a2: BenchArgs },
    Pull { a1: CommonArgs },
}

} // verus!
