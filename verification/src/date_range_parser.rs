//! The date-range expression parser: a date, optionally followed by `..` and
//! a second date, or by `^` and an offset such as `7d`, `3m` or `1y`.
//! Each sub-parser is an explicit state machine over bytes: it consumes the
//! longest prefix its transition function accepts, then finishes into a
//! value; an outer dispatcher switches between the machines.

use vstd::prelude::*;

use crate::date::Date;
use crate::date::add_days_spec;
use crate::date::add_months_spec;
use crate::date::date_add_days;
use crate::date::date_add_months;
use crate::date::date_index;
use crate::date::days_between;
use crate::date::days_in_month;
use crate::date::lemma_date_index_orders;
use crate::date::valid_date;

verus! {

/// Everything that can be wrong with a date-range expression.
#[derive(Clone, Copy, Debug, PartialEq, Eq)]
pub enum ParseError {
    /// The separator between tokens is not `..` or `^`.
    InvalidOps,
    /// An offset without one of the units `d`, `m` or `y`.
    InvalidOffsetUnit,
    /// An offset count too large to apply.
    OffsetOverflow,
    /// A date token with more than three numbers.
    TooManyFields,
    /// A date that does not exist in the calendar.
    InvalidDate,
    /// A third date where at most two are allowed.
    TooManyDates,
    /// An offset that does not follow exactly one date.
    OffsetWithoutDate,
    /// An offset leading outside the supported year range.
    InvalidOffset,
    /// Fewer than two dates by the end of the input.
    NotEnoughDates,
}

/// A fixed-capacity array filled from the front; pushing past the capacity
/// fails and changes nothing.
#[derive(Clone, Copy, Debug)]
pub struct FixedLengthArray<T, const N: usize> {
    pub array: [T; N],
    pub idx: usize,
}

impl<T: Copy, const N: usize> FixedLengthArray<T, N> {
    /// The elements pushed so far.
    pub open spec fn contents(self) -> Seq<T> {
        self.array@.take(self.idx as int)
    }

    pub open spec fn wf(self) -> bool {
        self.idx <= N
    }

    pub fn new(fill: T) -> (r: Self)
        ensures
            r.wf(),
            r.idx == 0,
            r.contents() == Seq::<T>::empty(),
            r.array@ == Seq::new(N as nat, |i: int| fill),
    {
        let r = FixedLengthArray { array: [fill;N], idx: 0 };
        proof {
            assert(r.array@.take(0) =~= Seq::<T>::empty());
            assert(r.array@ =~= Seq::new(N as nat, |i: int| fill));
        }
        r
    }

    /// Append one element; fails exactly when the array is full.
    pub fn push(&mut self, t: T) -> (r: Option<()>)
        requires
            old(self).wf(),
        ensures
            final(self).wf(),
            old(self).idx < N ==> r == Some(())
                && final(self).idx == old(self).idx + 1
                && final(self).contents() == old(self).contents().push(t)
                && final(self).array@ == old(self).array@.update(old(self).idx as int, t),
            old(self).idx >= N ==> r is None && *final(self) == *old(self),
    {
        if self.idx < N {
            self.array[self.idx] = t;
            self.idx = self.idx + 1;
            proof {
                assert(self.array@.take(self.idx as int) =~= old(self).contents().push(t));
            }
            Some(())
        } else {
            None
        }
    }
}

/// Which machine the separator token hands control to next.
pub ghost enum NextToken {
    DateToken,
    OffsetToken,
}

/// The dispatcher's state: which sub-parser currently consumes bytes.
pub enum State {
    ParsingOffset(OffsetParser),
    ParsingDate(DateParser),
    ParsingOps(OpsParser),
}

/// A parsed offset: a day count or a month count (`y` means twelve months).
#[derive(Clone, Copy, Debug, PartialEq, Eq)]
pub enum Offset {
    Days(u64),
    Months(u32),
}

// ---------------------------------------------------------------------------
// The separator machine: collects `.` and `^`, at most two.
// ---------------------------------------------------------------------------
/// One step of the separator machine.
pub open spec fn ops_step(st: Seq<u8>, c: u8) -> Option<Seq<u8>> {
    if (c == 46 || c == 94) && st.len() < 2 {
        Some(st.push(c))
    } else {
        None
    }
}

/// Run the separator machine from position `i`: the state after the longest
/// accepted prefix, and the position just past it.
pub open spec fn ops_run(s: Seq<u8>, i: int, st: Seq<u8>) -> (Seq<u8>, int)
    decreases s.len() - i,
    when 0 <= i <= s.len()
{
    if i >= s.len() {
        (st, i)
    } else {
        match ops_step(st, s[i]) {
            Option::None => (st, i),
            Option::Some(st2) => ops_run(s, i + 1, st2),
        }
    }
}

pub proof fn lemma_ops_run_range(s: Seq<u8>, i: int, st: Seq<u8>)
    requires
        0 <= i <= s.len(),
    ensures
        i <= ops_run(s, i, st).1 <= s.len(),
        ops_run(s, i, st).1 == i ==> ops_run(s, i, st).0 == st,
    decreases s.len() - i,
{
    if i < s.len() {
        match ops_step(st, s[i]) {
            Option::None => {}
            Option::Some(st2) => lemma_ops_run_range(s, i + 1, st2),
        }
    }
}

/// What the separator token means: `..` starts a second date, a single `^`
/// starts an offset, anything else is rejected.
pub open spec fn ops_finish_spec(st: Seq<u8>) -> Result<NextToken, ParseError> {
    if st =~= seq![46u8, 46u8] {
        Result::Ok(NextToken::DateToken)
    } else if st =~= seq![94u8] {
        Result::Ok(NextToken::OffsetToken)
    } else {
        Result::Err(ParseError::InvalidOps)
    }
}

pub open spec fn ops_parse_spec(s: Seq<u8>, i: int, st: Seq<u8>) -> Result<
    (NextToken, int),
    ParseError,
> {
    let run = ops_run(s, i, st);
    match ops_finish_spec(run.0) {
        Result::Ok(t) => Result::Ok((t, run.1)),
        Result::Err(e) => Result::Err(e),
    }
}

/// Does an exec dispatcher state begin the kind of token the separator asked
/// for, with a fresh sub-parser?
pub open spec fn state_matches(st: State, t: NextToken) -> bool {
    match t {
        NextToken::DateToken => st matches State::ParsingDate(p) && p.is_fresh(),
        NextToken::OffsetToken => st matches State::ParsingOffset(p) && p.is_fresh(),
    }
}

/// Collects the separator bytes between two tokens.
pub struct OpsParser {
    ops: FixedLengthArray<u8, 2>,
}

impl Default for OpsParser {
    /// An empty separator parser.
    fn default() -> (r: Self)
        ensures
            r.is_fresh(),
    {
        OpsParser { ops: FixedLengthArray::new(0) }
    }
}

impl OpsParser {
    pub closed spec fn contents(self) -> Seq<u8> {
        self.ops.contents()
    }

    /// Unused capacity keeps the fill value, so finishing can look at the raw
    /// array, as the transition table does.
    pub closed spec fn wf(self) -> bool {
        &&& self.ops.wf()
        &&& forall|k: int| self.ops.idx <= k < 2 ==> self.ops.array@[k] == 0
        &&& forall|k: int|
            0 <= k < self.ops.idx ==> (self.ops.array@[k] == 46 || self.ops.array@[k] == 94)
    }

    pub open spec fn is_fresh(self) -> bool {
        self.wf() && self.contents() =~= Seq::<u8>::empty()
    }

    /// Consume one byte, or refuse it and leave the state alone.
    pub fn input(&mut self, c: u8) -> (r: Option<()>)
        requires
            old(self).wf(),
        ensures
            final(self).wf(),
            (match ops_step(old(self).contents(), c) {
                Option::Some(st2) => r == Some(()) && final(self).contents() == st2,
                Option::None => r is None && *final(self) == *old(self),
            }),
    {
        if c == 46u8 || c == 94u8 {
            self.ops.push(c)
        } else {
            None
        }
    }

    /// Decide what the collected separator means.
    pub fn finish(self) -> (r: Result<State, ParseError>)
        requires
            self.wf(),
        ensures
            (match ops_finish_spec(self.contents()) {
                Result::Ok(t) => r is Ok && (r matches Result::Ok(st) && state_matches(st, t)),
                Result::Err(e) => r matches Result::Err(e2) && e == e2,
            }),
    {
        let a0 = self.ops.array[0];
        let a1 = self.ops.array[1];
        proof {
            assert(self.ops.array@.len() == 2);
            if self.ops.idx == 2 {
                assert(self.contents() =~= seq![a0, a1]);
                assert(self.contents().len() == 2);
                assert(self.contents()[0] == a0 && self.contents()[1] == a1);
            } else if self.ops.idx == 1 {
                assert(self.contents() =~= seq![a0]);
                assert(self.contents().len() == 1);
                assert(self.contents()[0] == a0);
                assert(a1 == 0);
            } else {
                assert(self.contents() =~= Seq::<u8>::empty());
                assert(a0 == 0);
            }
            assert(seq![46u8, 46u8].len() == 2 && seq![46u8, 46u8][0] == 46 && seq![
                46u8,
                46u8,
            ][1] == 46);
            assert(seq![94u8].len() == 1 && seq![94u8][0] == 94);
        }
        if a0 == 46u8 && a1 == 46u8 {
            Ok(State::ParsingDate(DateParser::default()))
        } else if a0 == 94u8 && a1 == 0 {
            Ok(State::ParsingOffset(OffsetParser::default()))
        } else {
            Err(ParseError::InvalidOps)
        }
    }

    /// Consume the longest separator prefix of `s` from `from`, then decide
    /// what it means; on success also return the position just past it.
    pub fn parse_str(self, s: &[u8], from: usize) -> (r: Result<(State, usize), ParseError>)
        requires
            self.wf(),
            from <= s@.len(),
        ensures
            (match ops_parse_spec(s@, from as int, self.contents()) {
                Result::Ok(tj) => (match r {
                    Result::Ok((st, j)) => state_matches(st, tj.0) && j as int == tj.1,
                    Result::Err(_) => false,
                }),
                Result::Err(e) => r matches Result::Err(e2) && e == e2,
            }),
    {
        let ghost init = self.contents();
        let mut p = self;
        let mut i = from;
        loop
            invariant_except_break
                p.wf(),
                from <= i <= s@.len(),
                ops_run(s@, from as int, init) == ops_run(s@, i as int, p.contents()),
            ensures
                p.wf(),
                i <= s@.len(),
                ops_run(s@, from as int, init) == (p.contents(), i as int),
            decreases s@.len() - i,
        {
            if i >= s.len() {
                break ;
            }
            let c = s[i];
            match p.input(c) {
                Some(_) => {
                    i = i + 1;
                }
                None => {
                    break ;
                }
            }
        }
        match p.finish() {
            Ok(st) => Ok((st, i)),
            Err(e) => Err(e),
        }
    }
}

// ---------------------------------------------------------------------------
// The offset machine: a decimal count followed by a unit letter.
// ---------------------------------------------------------------------------
/// One step of the offset machine over the state (count, unit). Digits extend
/// the count while no unit has been seen and the count stays representable; a
/// unit letter (`d`, `m`, `y`) is remembered, the last one winning.
pub open spec fn offset_step(st: (u32, u8), c: u8) -> Option<(u32, u8)> {
    if 48 <= c && c <= 57 {
        if st.1 == 0 && st.0 * 10 + (c - 48) <= u32::MAX {
            Some(((st.0 * 10 + (c - 48)) as u32, st.1))
        } else {
            None
        }
    } else if c == 100 || c == 109 || c == 121 {
        Some((st.0, c))
    } else {
        None
    }
}

pub open spec fn offset_run(s: Seq<u8>, i: int, st: (u32, u8)) -> ((u32, u8), int)
    decreases s.len() - i,
    when 0 <= i <= s.len()
{
    if i >= s.len() {
        (st, i)
    } else {
        match offset_step(st, s[i]) {
            Option::None => (st, i),
            Option::Some(st2) => offset_run(s, i + 1, st2),
        }
    }
}

pub proof fn lemma_offset_run_range(s: Seq<u8>, i: int, st: (u32, u8))
    requires
        0 <= i <= s.len(),
    ensures
        i <= offset_run(s, i, st).1 <= s.len(),
        offset_run(s, i, st).1 == i ==> offset_run(s, i, st).0 == st,
    decreases s.len() - i,
{
    if i < s.len() {
        match offset_step(st, s[i]) {
            Option::None => {}
            Option::Some(st2) => lemma_offset_run_range(s, i + 1, st2),
        }
    }
}

/// What a finished offset token means: `d` counts days, `m` months, `y`
/// twelve months each (too many years to count in months is rejected); no
/// unit at all is rejected.
pub open spec fn offset_finish_spec(st: (u32, u8)) -> Result<Offset, ParseError> {
    if st.1 == 100 {
        Result::Ok(Offset::Days(st.0 as u64))
    } else if st.1 == 109 {
        Result::Ok(Offset::Months(st.0))
    } else if st.1 == 121 {
        if st.0 * 12 <= u32::MAX {
            Result::Ok(Offset::Months((st.0 * 12) as u32))
        } else {
            Result::Err(ParseError::OffsetOverflow)
        }
    } else {
        Result::Err(ParseError::InvalidOffsetUnit)
    }
}

pub open spec fn offset_parse_spec(s: Seq<u8>, i: int, st: (u32, u8)) -> Result<
    (Offset, int),
    ParseError,
> {
    let run = offset_run(s, i, st);
    match offset_finish_spec(run.0) {
        Result::Ok(o) => Result::Ok((o, run.1)),
        Result::Err(e) => Result::Err(e),
    }
}

/// Parses an offset such as `7d`, `3m` or `1y`.
pub struct OffsetParser {
    pending_num: u32,
    unit: u8,
}

impl Default for OffsetParser {
    /// An offset parser that has seen no digits and no unit.
    fn default() -> (r: Self)
        ensures
            r.is_fresh(),
    {
        OffsetParser { pending_num: 0, unit: 0 }
    }
}

impl OffsetParser {
    pub closed spec fn state(self) -> (u32, u8) {
        (self.pending_num, self.unit)
    }

    pub open spec fn is_fresh(self) -> bool {
        self.state() == (0u32, 0u8)
    }

    /// Consume one byte, or refuse it and leave the state alone.
    pub fn input(&mut self, c: u8) -> (r: Option<()>)
        ensures
            (match offset_step(old(self).state(), c) {
                Option::Some(st2) => r == Some(()) && final(self).state() == st2,
                Option::None => r is None && *final(self) == *old(self),
            }),
    {
        if 48u8 <= c && c <= 57u8 {
            if self.unit == 0 {
                let v: u64 = self.pending_num as u64 * 10 + (c - 48u8) as u64;
                if v <= u32::MAX as u64 {
                    self.pending_num = v as u32;
                    Some(())
                } else {
                    None
                }
            } else {
                None
            }
        } else if c == 100u8 || c == 109u8 || c == 121u8 {
            self.unit = c;
            Some(())
        } else {
            None
        }
    }

    /// Decide what the collected offset means.
    pub fn finish(self) -> (r: Result<Offset, ParseError>)
        ensures
            r == offset_finish_spec(self.state()),
    {
        if self.unit == 100u8 {
            Ok(Offset::Days(self.pending_num as u64))
        } else if self.unit == 109u8 {
            Ok(Offset::Months(self.pending_num))
        } else if self.unit == 121u8 {
            match self.pending_num.checked_mul(12) {
                Some(v) => Ok(Offset::Months(v)),
                None => Err(ParseError::OffsetOverflow),
            }
        } else {
            Err(ParseError::InvalidOffsetUnit)
        }
    }

    /// Consume the longest offset prefix of `s` from `from`, then decide what
    /// it means; on success also return the position just past it.
    pub fn parse_str(self, s: &[u8], from: usize) -> (r: Result<(Offset, usize), ParseError>)
        requires
            from <= s@.len(),
        ensures
            (match offset_parse_spec(s@, from as int, self.state()) {
                Result::Ok(oj) => (match r {
                    Result::Ok((o, j)) => o == oj.0 && j as int == oj.1,
                    Result::Err(_) => false,
                }),
                Result::Err(e) => r matches Result::Err(e2) && e == e2,
            }),
    {
        let ghost init = self.state();
        let mut p = self;
        let mut i = from;
        loop
            invariant_except_break
                from <= i <= s@.len(),
                offset_run(s@, from as int, init) == offset_run(s@, i as int, p.state()),
            ensures
                i <= s@.len(),
                offset_run(s@, from as int, init) == (p.state(), i as int),
            decreases s@.len() - i,
        {
            if i >= s.len() {
                break ;
            }
            let c = s[i];
            match p.input(c) {
                Some(_) => {
                    i = i + 1;
                }
                None => {
                    break ;
                }
            }
        }
        match p.finish() {
            Ok(o) => Ok((o, i)),
            Err(e) => Err(e),
        }
    }
}

// ---------------------------------------------------------------------------
// The date machine: up to three dash-separated decimal numbers.
// ---------------------------------------------------------------------------
/// One step of the date machine over the state (numbers so far, pending
/// number). A dash closes the pending number if fewer than three are held; a
/// digit extends the pending number while it stays representable.
pub open spec fn date_step(st: (Seq<u16>, u16), c: u8) -> Option<(Seq<u16>, u16)> {
    if c == 45 {
        if st.0.len() < 3 {
            Some((st.0.push(st.1), 0u16))
        } else {
            None
        }
    } else if 48 <= c && c <= 57 {
        if st.1 * 10 + (c - 48) <= u16::MAX {
            Some((st.0, (st.1 * 10 + (c - 48)) as u16))
        } else {
            None
        }
    } else {
        None
    }
}

pub open spec fn date_run(s: Seq<u8>, i: int, st: (Seq<u16>, u16)) -> ((Seq<u16>, u16), int)
    decreases s.len() - i,
    when 0 <= i <= s.len()
{
    if i >= s.len() {
        (st, i)
    } else {
        match date_step(st, s[i]) {
            Option::None => (st, i),
            Option::Some(st2) => date_run(s, i + 1, st2),
        }
    }
}

pub proof fn lemma_date_run_range(s: Seq<u8>, i: int, st: (Seq<u16>, u16))
    requires
        0 <= i <= s.len(),
    ensures
        i <= date_run(s, i, st).1 <= s.len(),
        date_run(s, i, st).1 == i ==> date_run(s, i, st).0 == st,
    decreases s.len() - i,
{
    if i < s.len() {
        match date_step(st, s[i]) {
            Option::None => {}
            Option::Some(st2) => lemma_date_run_range(s, i + 1, st2),
        }
    }
}

/// What a finished date token means. The pending number joins the collected
/// ones (a fourth is rejected); three numbers are a full date, two are a
/// month and day of the current year, one is a day of the current month; a
/// date that does not exist in the calendar is rejected.
pub open spec fn date_finish_spec(nums: Seq<u16>, pending: u16, today: Date) -> Result<
    Date,
    ParseError,
> {
    if nums.len() >= 3 {
        Result::Err(ParseError::TooManyFields)
    } else {
        let ns = nums.push(pending);
        if ns.len() == 3 {
            if valid_date(ns[0] as int, ns[1] as int, ns[2] as int) {
                Result::Ok(Date { year: ns[0] as i32, month: ns[1] as u8, day: ns[2] as u8 })
            } else {
                Result::Err(ParseError::InvalidDate)
            }
        } else if ns.len() == 2 {
            if valid_date(today.year as int, ns[0] as int, ns[1] as int) {
                Result::Ok(Date { year: today.year, month: ns[0] as u8, day: ns[1] as u8 })
            } else {
                Result::Err(ParseError::InvalidDate)
            }
        } else {
            if valid_date(today.year as int, today.month as int, ns[0] as int) {
                Result::Ok(Date { year: today.year, month: today.month, day: ns[0] as u8 })
            } else {
                Result::Err(ParseError::InvalidDate)
            }
        }
    }
}

pub open spec fn date_parse_spec(s: Seq<u8>, i: int, st: (Seq<u16>, u16), today: Date) -> Result<
    (Date, int),
    ParseError,
> {
    let run = date_run(s, i, st);
    match date_finish_spec(run.0.0, run.0.1, today) {
        Result::Ok(d) => Result::Ok((d, run.1)),
        Result::Err(e) => Result::Err(e),
    }
}

/// Parses one date token such as `2022-01-31`, `01-31` or `31`.
pub struct DateParser {
    nums: FixedLengthArray<u16, 3>,
    pending_num: u16,
}

impl Default for DateParser {
    /// A date parser that has seen nothing.
    fn default() -> (r: Self)
        ensures
            r.is_fresh(),
    {
        DateParser { nums: FixedLengthArray::new(0), pending_num: 0 }
    }
}

impl DateParser {
    pub closed spec fn state(self) -> (Seq<u16>, u16) {
        (self.nums.contents(), self.pending_num)
    }

    pub closed spec fn wf(self) -> bool {
        self.nums.wf()
    }

    pub open spec fn is_fresh(self) -> bool {
        self.wf() && self.state() == (Seq::<u16>::empty(), 0u16)
    }

    /// Consume one byte, or refuse it and leave the state alone.
    pub fn input(&mut self, c: u8) -> (r: Option<()>)
        requires
            old(self).wf(),
        ensures
            final(self).wf(),
            (match date_step(old(self).state(), c) {
                Option::Some(st2) => r == Some(()) && final(self).state() == st2,
                Option::None => r is None && *final(self) == *old(self),
            }),
    {
        if c == 45u8 {
            match self.nums.push(self.pending_num) {
                Some(_) => {
                    self.pending_num = 0;
                    Some(())
                }
                None => None,
            }
        } else if 48u8 <= c && c <= 57u8 {
            let v: u32 = self.pending_num as u32 * 10 + (c - 48u8) as u32;
            if v <= u16::MAX as u32 {
                self.pending_num = v as u16;
                Some(())
            } else {
                None
            }
        } else {
            None
        }
    }

    /// Close the pending number and resolve the numbers into a date, taking
    /// missing leading fields from `today`.
    pub fn finish(self, today: Date) -> (r: Result<Date, ParseError>)
        requires
            self.wf(),
            today.valid(),
        ensures
            r == date_finish_spec(self.state().0, self.state().1, today),
    {
        let mut me = self;
        let pending = me.pending_num;
        match me.nums.push(pending) {
            None => Err(ParseError::TooManyFields),
            Some(_) => {
                if me.nums.idx == 3 {
                    let y = me.nums.array[0];
                    let m = me.nums.array[1];
                    let d = me.nums.array[2];
                    match Date::new(y as i32, m as u32, d as u32) {
                        Some(date) => Ok(date),
                        None => Err(ParseError::InvalidDate),
                    }
                } else if me.nums.idx == 2 {
                    let m = me.nums.array[0];
                    let d = me.nums.array[1];
                    match Date::new(today.year, m as u32, d as u32) {
                        Some(date) => Ok(date),
                        None => Err(ParseError::InvalidDate),
                    }
                } else {
                    let d = me.nums.array[0];
                    match Date::new(today.year, today.month as u32, d as u32) {
                        Some(date) => Ok(date),
                        None => Err(ParseError::InvalidDate),
                    }
                }
            }
        }
    }

    /// Consume the longest date prefix of `s` from `from`, then resolve it;
    /// on success also return the position just past it.
    pub fn parse_str(self, s: &[u8], from: usize, today: Date) -> (r: Result<
        (Date, usize),
        ParseError,
    >)
        requires
            self.wf(),
            from <= s@.len(),
            today.valid(),
        ensures
            (match date_parse_spec(s@, from as int, self.state(), today) {
                Result::Ok(dj) => (match r {
                    Result::Ok((d, j)) => d == dj.0 && j as int == dj.1,
                    Result::Err(_) => false,
                }),
                Result::Err(e) => r matches Result::Err(e2) && e == e2,
            }),
    {
        let ghost init = self.state();
        let mut p = self;
        let mut i = from;
        loop
            invariant_except_break
                p.wf(),
                from <= i <= s@.len(),
                today.valid(),
                date_run(s@, from as int, init) == date_run(s@, i as int, p.state()),
            ensures
                p.wf(),
                today.valid(),
                i <= s@.len(),
                date_run(s@, from as int, init) == (p.state(), i as int),
            decreases s@.len() - i,
        {
            if i >= s.len() {
                break ;
            }
            let c = s[i];
            match p.input(c) {
                Some(_) => {
                    i = i + 1;
                }
                None => {
                    break ;
                }
            }
        }
        match p.finish(today) {
            Ok(d) => Ok((d, i)),
            Err(e) => Err(e),
        }
    }
}

// ---------------------------------------------------------------------------
// The dispatcher: date, then separators, dates and offsets in turn.
// ---------------------------------------------------------------------------
/// Which machine is active, seen abstractly.
pub ghost enum ParsePhase {
    OnDate,
    OnOps,
    OnOffset,
}

pub open spec fn phase_of(st: State) -> ParsePhase {
    match st {
        State::ParsingDate(_) => ParsePhase::OnDate,
        State::ParsingOps(_) => ParsePhase::OnOps,
        State::ParsingOffset(_) => ParsePhase::OnOffset,
    }
}

/// The dispatcher's state is always a fresh sub-parser.
pub open spec fn dispatch_ok(st: State) -> bool {
    match st {
        State::ParsingDate(p) => p.is_fresh(),
        State::ParsingOps(p) => p.is_fresh(),
        State::ParsingOffset(p) => p.is_fresh(),
    }
}

/// The dispatcher, one token per step: each active machine consumes its
/// longest prefix and finishes; a date is collected (at most two), an offset
/// is applied to the first date to make the second, a separator picks the
/// next machine. At the end of the input there must be exactly two dates.
/// The guards `i < j` can only fail where the finish already rejected, so the
/// error arms they carry are never reached.
pub open spec fn parse_loop(
    s: Seq<u8>,
    i: int,
    ph: ParsePhase,
    dates: Seq<Date>,
    today: Date,
) -> Result<(Date, Date), ParseError>
    decreases s.len() - i,
    when 0 <= i <= s.len()
{
    if i >= s.len() {
        if dates.len() == 2 {
            Result::Ok((dates[0], dates[1]))
        } else {
            Result::Err(ParseError::NotEnoughDates)
        }
    } else {
        match ph {
            ParsePhase::OnDate => match date_parse_spec(s, i, (Seq::empty(), 0u16), today) {
                Result::Err(e) => Result::Err(e),
                Result::Ok(dj) => if dates.len() >= 2 {
                    Result::Err(ParseError::TooManyDates)
                } else if i < dj.1 <= s.len() {
                    parse_loop(s, dj.1, ParsePhase::OnOps, dates.push(dj.0), today)
                } else {
                    Result::Err(ParseError::InvalidDate)
                },
            },
            ParsePhase::OnOps => match ops_parse_spec(s, i, Seq::empty()) {
                Result::Err(e) => Result::Err(e),
                Result::Ok(tj) => if i < tj.1 <= s.len() {
                    parse_loop(
                        s,
                        tj.1,
                        (match tj.0 {
                            NextToken::DateToken => ParsePhase::OnDate,
                            NextToken::OffsetToken => ParsePhase::OnOffset,
                        }),
                        dates,
                        today,
                    )
                } else {
                    Result::Err(ParseError::InvalidOps)
                },
            },
            ParsePhase::OnOffset => match offset_parse_spec(s, i, (0u32, 0u8)) {
                Result::Err(e) => Result::Err(e),
                Result::Ok(oj) => if dates.len() != 1 {
                    Result::Err(ParseError::OffsetWithoutDate)
                } else {
                    let base = dates[0];
                    let added = match oj.0 {
                        Offset::Days(n) => add_days_spec(
                            base.year as int,
                            base.month as int,
                            base.day as int,
                            n as int,
                        ),
                        Offset::Months(n) => add_months_spec(
                            base.year as int,
                            base.month as int,
                            base.day as int,
                            n as int,
                        ),
                    };
                    match added {
                        Option::None => Result::Err(ParseError::InvalidOffset),
                        Option::Some(ymd) => if i < oj.1 <= s.len() {
                            parse_loop(
                                s,
                                oj.1,
                                ParsePhase::OnOps,
                                dates.push(
                                    Date {
                                        year: ymd.0 as i32,
                                        month: ymd.1 as u8,
                                        day: ymd.2 as u8,
                                    },
                                ),
                                today,
                            )
                        } else {
                            Result::Err(ParseError::InvalidOffsetUnit)
                        },
                    }
                },
            },
        }
    }
}

/// What a whole date-range expression means, relative to today's date.
pub open spec fn parse_range(s: Seq<u8>, today: Date) -> Result<(Date, Date), ParseError> {
    parse_loop(s, 0, ParsePhase::OnDate, Seq::empty(), today)
}

/// A range of dates: `start` inclusive, `end` exclusive.
#[derive(Clone, Copy, Debug, PartialEq, Eq)]
pub struct DateRange {
    pub start: Date,
    pub end: Date,
}

/// Does the parse result `r` report exactly what the expression means, `p`?
pub open spec fn matches_parse(
    r: Result<DateRange, ParseError>,
    p: Result<(Date, Date), ParseError>,
) -> bool {
    match p {
        Result::Ok(se) => (match r {
            Result::Ok(dr) => dr.start == se.0 && dr.end == se.1 && dr.start.valid()
                && dr.end.valid(),
            Result::Err(_) => false,
        }),
        Result::Err(e) => r matches Result::Err(e2) && e == e2,
    }
}

impl DateRange {
    /// Parse a date-range expression: two dates separated by `..`, or a date
    /// followed by `^` and an offset. Missing leading date fields are taken
    /// from `today`.
    pub fn from_str(s: &[u8], today: Date) -> (r: Result<DateRange, ParseError>)
        requires
            today.valid(),
        ensures
            matches_parse(r, parse_range(s@, today)),
    {
        let mut state = State::ParsingDate(DateParser::default());
        let mut dates = FixedLengthArray::<Date, 2>::new(Date { year: 0, month: 1, day: 1 });
        let mut pos: usize = 0;
        loop
            invariant_except_break
                today.valid(),
                pos <= s@.len(),
                dates.wf(),
                forall|k: int| 0 <= k < dates.idx ==> dates.contents()[k].valid(),
                dispatch_ok(state),
                parse_range(s@, today) == parse_loop(
                    s@,
                    pos as int,
                    phase_of(state),
                    dates.contents(),
                    today,
                ),
            ensures
                dates.wf(),
                forall|k: int| 0 <= k < dates.idx ==> dates.contents()[k].valid(),
                parse_range(s@, today) == (if dates.idx == 2 {
                    Result::<(Date, Date), ParseError>::Ok(
                        (dates.contents()[0], dates.contents()[1]),
                    )
                } else {
                    Result::<(Date, Date), ParseError>::Err(ParseError::NotEnoughDates)
                }),
            decreases s@.len() - pos,
        {
            if pos >= s.len() {
                break ;
            }
            match state {
                State::ParsingDate(p) => {
                    let ghost pre = p.state();
                    match p.parse_str(s, pos, today) {
                        Err(e) => {
                            return Err(e);
                        }
                        Ok((d, j)) => {
                            proof {
                                lemma_date_run_range(s@, pos as int, pre);
                            }
                            if dates.idx >= 2 {
                                return Err(ParseError::TooManyDates);
                            }
                            let _ = dates.push(d);
                            state = State::ParsingOps(OpsParser::default());
                            pos = j;
                        }
                    }
                }
                State::ParsingOps(p) => {
                    let ghost pre = p.contents();
                    match p.parse_str(s, pos) {
                        Err(e) => {
                            return Err(e);
                        }
                        Ok((st2, j)) => {
                            proof {
                                lemma_ops_run_range(s@, pos as int, pre);
                            }
                            state = st2;
                            pos = j;
                        }
                    }
                }
                State::ParsingOffset(p) => {
                    let ghost pre = p.state();
                    match p.parse_str(s, pos) {
                        Err(e) => {
                            return Err(e);
                        }
                        Ok((off, j)) => {
                            proof {
                                lemma_offset_run_range(s@, pos as int, pre);
                            }
                            if dates.idx != 1 {
                                return Err(ParseError::OffsetWithoutDate);
                            }
                            let base = dates.array[0];
                            let added = match off {
                                Offset::Days(n) => date_add_days(base, n),
                                Offset::Months(n) => date_add_months(base, n),
                            };
                            match added {
                                None => {
                                    return Err(ParseError::InvalidOffset);
                                }
                                Some(d2) => {
                                    let _ = dates.push(d2);
                                    state = State::ParsingOps(OpsParser::default());
                                    pos = j;
                                }
                            }
                        }
                    }
                }
            }
        }
        if dates.idx == 2 {
            let start = dates.array[0];
            let end = dates.array[1];
            Ok(DateRange { start, end })
        } else {
            Err(ParseError::NotEnoughDates)
        }
    }

    /// Parse a date-range expression against the machine's current date:
    /// whatever the clock said, the result is exactly what the expression
    /// means relative to that day.
    pub fn from_str_now(s: &[u8]) -> (r: Result<DateRange, ParseError>)
        ensures
            exists|t: Date| t.valid() && matches_parse(r, parse_range(s@, t)),
    {
        let t = crate::date::today();
        let r = Self::from_str(s, t);
        proof {
            assert(t.valid() && matches_parse(r, parse_range(s@, t)));
        }
        r
    }

    /// Every day of the range in calendar order: `start` inclusive up to
    /// `end` exclusive.
    pub fn iter_days(&self) -> (r: Vec<Date>)
        requires
            self.start.valid(),
            self.end.valid(),
        ensures
            r@ == days_between(self.start, self.end),
    {
        let mut out: Vec<Date> = Vec::new();
        let mut cur = self.start;
        proof {
            assert(out@ + days_between(cur, self.end) =~= days_between(self.start, self.end));
        }
        while cur.lt(&self.end)
            invariant
                self.start.valid(),
                self.end.valid(),
                cur.valid(),
                days_between(self.start, self.end) == out@ + days_between(cur, self.end),
            decreases date_index(self.end) - date_index(cur),
        {
            proof {
                lemma_date_index_orders(cur, self.end);
                assert(days_in_month(self.end.year as int, self.end.month as int) <= 31);
            }
            let prev = cur;
            out.push(cur);
            cur = cur.succ();
            proof {
                assert(days_between(prev, self.end) == seq![prev] + days_between(cur, self.end));
                assert(out@ + days_between(cur, self.end) =~= days_between(self.start, self.end));
            }
        }
        proof {
            assert(days_between(cur, self.end) =~= Seq::<Date>::empty());
            assert(out@ =~= days_between(self.start, self.end));
        }
        out
    }
}

} // verus!
