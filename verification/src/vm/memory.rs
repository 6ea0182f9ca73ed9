//! The memory of the machine: a tape of cells, a pointer to one of them, and
//! the options that say how cells and tape behave at their bounds.

use vstd::prelude::*;
use crate::code::command_traits::{CommandRunner, Reply, Request};
use crate::debug::{reports, Event, OkEvent, Status};
use crate::stdlib::{describe_invalid, invalid_data};
use super::cell::{
    absorbed, decrementable, decremented, default_lower, default_upper, glyph, incrementable,
    incremented, lemma_decrement_within, lemma_increment_within, wrappable, CellNumber,
    MemoryCell,
};
use super::pointer::{advanced, default_range, retreated, MemoryPointer, MemoryRange};

verus! {

/// What a set of options holds.
pub struct OptionValues {
    /// Whether the tape grows when the pointer steps off its end.
    pub variable_length: bool,
    /// Whether a cell wraps round at its bounds.
    pub wrap: bool,
    /// The least number that a cell holds.
    pub lower_bound: CellNumber,
    /// The greatest number that a cell holds.
    pub upper_bound: CellNumber,
    /// The number of cells that the tape starts with.
    pub initial_length: MemoryRange,
}

impl OptionValues {
    /// The limit by which cells are folded: one above the upper bound, or
    /// the upper bound itself where that is the greatest number a cell can
    /// hold.
    pub open spec fn limit(self) -> CellNumber {
        if self.upper_bound == CellNumber::MAX {
            CellNumber::MAX
        } else {
            (self.upper_bound + 1) as CellNumber
        }
    }

    /// Whether a memory can be made from the options: the tape starts with
    /// at least one cell, and the upper bound is above the lower one or is
    /// the greatest number a cell can hold.
    pub open spec fn valid(self) -> bool {
        &&& self.upper_bound > self.lower_bound || self.upper_bound == CellNumber::MAX
        &&& self.initial_length >= 1
    }
}

/// The options of a [`Memory`].
#[derive(Clone, Copy, Debug)]
pub struct MemoryOptions {
    variable_length: bool,
    wrap: bool,
    lower_bound: CellNumber,
    upper_bound: CellNumber,
    initial_length: MemoryRange,
}

impl View for MemoryOptions {
    type V = OptionValues;

    closed spec fn view(&self) -> OptionValues {
        OptionValues {
            variable_length: self.variable_length,
            wrap: self.wrap,
            lower_bound: self.lower_bound,
            upper_bound: self.upper_bound,
            initial_length: self.initial_length,
        }
    }
}

impl MemoryOptions {
    /// The default options: a tape of fixed length `0xFFFF` whose cells wrap
    /// round between 0 and 255.
    pub fn new() -> (options: Self)
        ensures
            options@ == (OptionValues {
                variable_length: false,
                wrap: true,
                lower_bound: 0,
                upper_bound: 255,
                initial_length: 0xFFFF,
            }),
    {
        Self {
            variable_length: false,
            wrap: true,
            lower_bound: default_lower(),
            upper_bound: default_upper(),
            initial_length: default_range(),
        }
    }

    /// Chooses whether the tape grows by a cell when the pointer steps off
    /// its end. Where it does not, the pointer goes back to the first cell.
    pub fn variable_length(&mut self, setting: bool) -> (same: &mut Self)
        ensures
            same@ == (OptionValues { variable_length: setting, ..old(self)@ }),
            *final(self) == *final(same),
    {
        self.variable_length = setting;
        self
    }

    /// Chooses whether a cell wraps round at its bounds. A memory whose
    /// cells do not wrap is not offered, so this is not public.
    #[allow(dead_code)]
    fn wrap(&mut self, setting: bool) -> (same: &mut Self)
        ensures
            same@ == (OptionValues { wrap: setting, ..old(self)@ }),
            *final(self) == *final(same),
    {
        self.wrap = setting;
        self
    }

    /// Chooses the lower bound of a cell.
    pub fn lower_bound(&mut self, setting: CellNumber) -> (same: &mut Self)
        ensures
            same@ == (OptionValues { lower_bound: setting, ..old(self)@ }),
            *final(self) == *final(same),
    {
        self.lower_bound = setting;
        self
    }

    /// The lower bound of a cell.
    pub fn lowest(&self) -> (lowest: CellNumber)
        ensures
            lowest == self@.lower_bound,
    {
        self.lower_bound
    }

    /// Chooses the upper bound of a cell.
    pub fn upper_bound(&mut self, setting: CellNumber) -> (same: &mut Self)
        ensures
            same@ == (OptionValues { upper_bound: setting, ..old(self)@ }),
            *final(self) == *final(same),
    {
        self.upper_bound = setting;
        self
    }

    /// The limit by which cells are folded: one above the upper bound. Where
    /// the upper bound is the greatest number a cell can hold, the limit is
    /// that number.
    pub fn highest(&self) -> (highest: CellNumber)
        ensures
            highest == self@.limit(),
    {
        if self.upper_bound == CellNumber::MAX {
            CellNumber::MAX
        } else {
            self.upper_bound + 1
        }
    }

    /// Chooses the number of cells that the tape starts with.
    pub fn initial_length(&mut self, setting: MemoryRange) -> (same: &mut Self)
        ensures
            same@ == (OptionValues { initial_length: setting, ..old(self)@ }),
            *final(self) == *final(same),
    {
        self.initial_length = setting;
        self
    }

    /// Whether a memory can be made from the options.
    pub fn is_valid(&self) -> (valid: bool)
        ensures
            valid == self@.valid(),
    {
        (self.upper_bound > self.lower_bound || self.upper_bound == CellNumber::MAX)
            && self.initial_length >= 1
    }

    /// Marks the place where the options have to be valid: nothing is done,
    /// and options that are not valid cannot be handed in.
    pub fn validate(&self)
        requires
            self@.valid(),
    {
    }

    /// Makes a memory from the options, or fails with an I/O error if they
    /// are not valid.
    pub fn generate(&self) -> (made: Result<Memory, std::io::Error>)
        ensures
            made is Ok <==> self@.valid(),
            made matches Ok(memory) ==> memory@ == MemoryView::fresh(self@) && memory@.wf(),
    {
        match self.is_valid() {
            false => Err(invalid_data(describe_invalid(self))),
            true => Ok(Memory::new(*self)),
        }
    }

    /// Makes a memory from options that are valid.
    pub fn assume_and_generate(&self) -> (memory: Memory)
        requires
            self@.valid(),
        ensures
            memory@ == MemoryView::fresh(self@),
            memory@.wf(),
    {
        self.validate();
        let copy = *self;
        Memory::new(copy)
    }
}

impl Default for MemoryOptions {
    /// The default options, as [`MemoryOptions::new`] gives them.
    fn default() -> (options: Self)
        ensures
            options@ == (OptionValues {
                variable_length: false,
                wrap: true,
                lower_bound: 0,
                upper_bound: 255,
                initial_length: 0xFFFF,
            }),
    {
        Self::new()
    }
}

/// What a memory holds: the numbers in the cells of its tape, the index of
/// the current cell, and its options.
pub struct MemoryView {
    pub tape: Seq<CellNumber>,
    pub pointer: MemoryRange,
    pub options: OptionValues,
}

impl MemoryView {
    /// The memory that is made from `options`: every cell of the tape holds
    /// the lower bound, and the pointer is at the first cell.
    pub open spec fn fresh(options: OptionValues) -> MemoryView {
        MemoryView {
            tape: Seq::new(options.initial_length as nat, |i: int| options.lower_bound),
            pointer: 0,
            options,
        }
    }

    /// Whether the tape has a cell, the pointer is at one of its cells, and
    /// the cells can be counted by the machine.
    pub open spec fn wf(self) -> bool {
        &&& 1 <= self.tape.len() <= MemoryRange::MAX
        &&& self.pointer < self.tape.len()
    }

    /// Whether `request` makes the tape grow by a cell.
    pub open spec fn grows(self, request: Request) -> bool {
        request is Next && self.pointer + 1 >= self.tape.len() && self.options.variable_length
    }

    /// The number in the current cell.
    pub open spec fn current(self) -> CellNumber {
        self.tape[self.pointer as int]
    }

    /// The lower bound of a cell.
    pub open spec fn lowest(self) -> int {
        self.options.lower_bound as int
    }

    /// The limit by which cells are folded.
    pub open spec fn limit(self) -> int {
        self.options.limit() as int
    }

    /// The same memory with `number` in the current cell.
    pub open spec fn with_current(self, number: int) -> MemoryView {
        MemoryView { tape: self.tape.update(self.pointer as int, number as CellNumber), ..self }
    }

    /// Whether the machine can do what `request` asks: the arithmetic on the
    /// current cell must not leave the numbers that a cell can hold.
    pub open spec fn accepts(self, request: Request) -> bool {
        match request {
            Request::Increment => incrementable(self.current() as int, self.lowest(), self.limit()),
            Request::Decrement => decrementable(self.current() as int, self.lowest(), self.limit()),
            Request::WriteIn(input) => wrappable(input as int, self.lowest(), self.limit()),
            _ => true,
        }
    }

    /// The memory after `request` was done.
    pub open spec fn stepped(self, request: Request) -> MemoryView {
        match request {
            Request::Increment => self.with_current(
                incremented(self.current() as int, self.lowest(), self.limit()),
            ),
            Request::Decrement => self.with_current(
                decremented(self.current() as int, self.lowest(), self.limit()),
            ),
            Request::Previous => MemoryView {
                pointer: retreated(self.pointer as int, self.tape.len() as int) as MemoryRange,
                ..self
            },
            Request::Next => if self.grows(request) {
                MemoryView {
                    tape: self.tape.push(self.options.lower_bound),
                    pointer: self.tape.len() as MemoryRange,
                    ..self
                }
            } else {
                MemoryView {
                    pointer: advanced(self.pointer as int, self.tape.len() as int, true) as MemoryRange,
                    ..self
                }
            },
            Request::ReadOut => self,
            Request::WriteIn(input) => self.with_current(
                absorbed(input, self.lowest(), self.limit()),
            ),
            Request::IsZero => self,
        }
    }

    /// What is handed back for `request` besides the event.
    pub open spec fn reply(self, request: Request) -> Reply {
        match request {
            Request::ReadOut => Reply::Character(glyph(self.current())),
            Request::IsZero => Reply::Zero(self.current() == 0),
            _ => Reply::Nothing,
        }
    }
}

impl MemoryView {
    /// Whether every cell holds a number that is at least the lower bound
    /// and below the limit.
    pub open spec fn bounded(self) -> bool {
        forall|i: int| 0 <= i < self.tape.len() ==> self.lowest() <= #[trigger] self.tape[i] < self.limit()
    }
}

/// A request leaves the tape with a cell under the pointer: the tape never
/// gets shorter, the pointer stays on it, and the options stay as they are.
pub proof fn lemma_step_keeps_shape(view: MemoryView, request: Request)
    requires
        view.wf(),
        view.grows(request) ==> view.tape.len() < MemoryRange::MAX,
    ensures
        view.stepped(request).wf(),
        view.stepped(request).tape.len() >= view.tape.len(),
        view.stepped(request).options == view.options,
{
}

/// Where the pointer goes at the ends of the tape. A step to the left from
/// the first cell leads to the last. A step to the right from the last cell
/// leads to the first if the tape is of fixed length; if it is not, the tape
/// gets one more cell, which holds the lower bound, and the pointer is on it.
pub proof fn lemma_pointer_at_ends(view: MemoryView)
    requires
        view.wf(),
        view.grows(Request::Next) ==> view.tape.len() < MemoryRange::MAX,
    ensures
        view.pointer == 0 ==> view.stepped(Request::Previous).pointer == view.tape.len() - 1
            && view.stepped(Request::Previous).tape == view.tape,
        view.pointer == view.tape.len() - 1 && !view.options.variable_length ==> view.stepped(
            Request::Next,
        ).pointer == 0 && view.stepped(Request::Next).tape == view.tape,
        view.pointer == view.tape.len() - 1 && view.options.variable_length ==> view.stepped(
            Request::Next,
        ).pointer == view.tape.len() && view.stepped(Request::Next).tape == view.tape.push(
            view.options.lower_bound,
        ),
{
}

/// Cells stay between their bounds. On a memory whose cells all hold at
/// least the lower bound and less than the limit, and whose limit is not
/// zero, every request can be done and leaves the cells so. For a character
/// to be taken in, zero must lie between the bounds as well.
pub proof fn lemma_step_keeps_bounds(view: MemoryView, request: Request)
    requires
        view.wf(),
        view.grows(request) ==> view.tape.len() < MemoryRange::MAX,
        view.bounded(),
        view.limit() != 0,
        request is WriteIn ==> view.lowest() <= 0 < view.limit(),
    ensures
        view.accepts(request),
        view.stepped(request).bounded(),
{
    let value = view.current() as int;
    let after = view.stepped(request);
    match request {
        Request::Increment => {
            lemma_increment_within(value, view.lowest(), view.limit() - 1);
        },
        Request::Decrement => {
            lemma_decrement_within(value, view.lowest(), view.limit() - 1);
        },
        Request::WriteIn(input) => {
            let code = input as int;
            let limit = view.limit();
            assert(0 <= code % limit < limit) by (nonlinear_arith)
                requires
                    0 <= code,
                    0 < limit,
            ;
        },
        _ => {},
    }
    assert forall|i: int| 0 <= i < after.tape.len() implies view.lowest() <= #[trigger] after.tape[i]
        < view.limit() by {
        if i < view.tape.len() && i != view.pointer {
            assert(after.tape[i] == view.tape[i]);
        }
    }
}

/// The description of the status that reports `request` as done.
pub open spec fn answer(request: Request) -> Seq<char> {
    match request {
        Request::Increment => "Increment successful"@,
        Request::Decrement => "Decrement successful"@,
        Request::Previous => "Successfully moved pointer to the previous cell."@,
        Request::Next => "Successfully moved pointer to the next cell."@,
        Request::ReadOut => "Output char: OK"@,
        Request::WriteIn(_) => "Input char: OK"@,
        Request::IsZero => "Successfully moved pointer to the previous cell."@,
    }
}

/// The memory of the machine.
#[derive(Debug)]
pub struct Memory {
    tape: Vec<MemoryCell>,
    pointer: MemoryPointer,
    options: MemoryOptions,
}

impl View for Memory {
    type V = MemoryView;

    closed spec fn view(&self) -> MemoryView {
        MemoryView {
            tape: Seq::new(self.tape@.len(), |i: int| self.tape@[i].number()),
            pointer: self.pointer.pointer(),
            options: self.options@,
        }
    }
}

impl Clone for Memory {
    fn clone(&self) -> (copy: Self)
        ensures
            copy@ == self@,
    {
        let mut tape: Vec<MemoryCell> = Vec::new();
        let mut i: usize = 0;
        while i < self.tape.len()
            invariant
                i <= self.tape.len(),
                tape@ == self.tape@.take(i as int),
            decreases self.tape.len() - i,
        {
            tape.push(self.tape[i]);
            assert(self.tape@.take(i + 1) =~= self.tape@.take(i as int).push(self.tape@[i as int]));
            i += 1;
        }
        assert(tape@ =~= self.tape@);
        Self { tape, pointer: self.pointer, options: self.options }
    }
}

impl Memory {
    /// A memory made from `options`, which are valid: every cell holds the
    /// lower bound, and the pointer is at the first cell.
    pub fn new(options: MemoryOptions) -> (memory: Self)
        requires
            options@.valid(),
        ensures
            memory@ == MemoryView::fresh(options@),
            memory@.wf(),
    {
        options.validate();
        let tape: Vec<MemoryCell> = Vec::new();
        let pointer = MemoryPointer::default();
        let mut memory = Self { tape, pointer, options };
        memory.init();
        assert(memory@.tape =~= MemoryView::fresh(options@).tape);
        memory
    }

    /// A memory made from `options`, or an I/O error if they are not valid.
    pub fn with_validation(options: MemoryOptions) -> (made: Result<Self, std::io::Error>)
        ensures
            made is Ok <==> options@.valid(),
            made matches Ok(memory) ==> memory@ == MemoryView::fresh(options@) && memory@.wf(),
    {
        match options.is_valid() {
            false => Err(invalid_data(describe_invalid(&options))),
            true => Ok(Memory::new(options)),
        }
    }

    /// Brings the tape to its first length, new cells holding the lower
    /// bound, and the pointer to the first cell.
    fn init(&mut self)
        ensures
            final(self).options == old(self).options,
            final(self).pointer.pointer() == 0,
            final(self).tape@.len() == old(self).options@.initial_length,
            forall|i: int|
                old(self).tape@.len() <= i < final(self).tape@.len() ==> final(self).tape@[i].number()
                    == old(self).options@.lower_bound,
            forall|i: int|
                0 <= i < old(self).tape@.len() && i < final(self).tape@.len() ==> final(self).tape@[i]
                    == old(self).tape@[i],
    {
        self.tape.resize(self.options.initial_length, MemoryCell::new(self.options.lowest()));
        assert forall|i: int|
            0 <= i < old(self).tape@.len() && i < self.tape@.len() implies self.tape@[i] == old(
            self,
        ).tape@[i] by {
            if self.options@.initial_length > old(self).tape@.len() {
                assert(self.tape@.subrange(0, old(self).tape@.len() as int)[i] == self.tape@[i]);
            }
        }
        self.pointer.to_zero();
    }

    /// Sets every cell of the tape to the lower bound.
    pub fn flatten(&mut self)
        ensures
            final(self)@ == (MemoryView {
                tape: Seq::new(old(self)@.tape.len(), |i: int| old(self)@.options.lower_bound),
                ..old(self)@
            }),
    {
        let lowest = self.options.lowest();
        let mut i: usize = 0;
        while i < self.tape.len()
            invariant
                self.options == old(self).options,
                self.pointer == old(self).pointer,
                self.tape@.len() == old(self).tape@.len(),
                lowest == self.options@.lower_bound,
                i <= self.tape.len(),
                forall|k: int| 0 <= k < i ==> self.tape@[k].number() == lowest,
            decreases self.tape.len() - i,
        {
            let mut cell = self.tape[i];
            cell.flatten(lowest);
            self.tape[i] = cell;
            i += 1;
        }
        assert(self@.tape =~= Seq::new(old(self)@.tape.len(), |i: int| old(self)@.options.lower_bound));
    }

    /// The index of the current cell.
    pub fn pointer(&self) -> (index: MemoryRange)
        ensures
            index == self@.pointer,
    {
        self.pointer.pointer()
    }

    /// A copy of the current cell, if the pointer is at a cell of the tape.
    pub fn get(&self) -> (cell: Option<MemoryCell>)
        ensures
            match cell {
                Some(cell) => self@.pointer < self@.tape.len() && cell.number() == self@.current(),
                None => self@.pointer >= self@.tape.len(),
            },
    {
        let pointer = self.pointer();
        if pointer < self.tape.len() {
            Some(self.tape[pointer])
        } else {
            None
        }
    }

    /// The options that the memory was made from.
    pub fn options(&self) -> (options: MemoryOptions)
        ensures
            options@ == self@.options,
    {
        self.options
    }

    /// The number of cells on the tape.
    pub fn len(&self) -> (length: usize)
        ensures
            length == self@.tape.len(),
    {
        self.tape.len()
    }

    /// Whether the machine can do what `request` asks, as the memory is.
    pub fn permits(&self, request: Request) -> (can: bool)
        requires
            self@.wf(),
        ensures
            can == self@.accepts(request),
    {
        let lowest = self.options.lowest();
        let highest = self.options.highest();
        match request {
            Request::Increment => self.tape[self.pointer()].can_increment(lowest, highest),
            Request::Decrement => self.tape[self.pointer()].can_decrement(lowest, highest),
            Request::WriteIn(input) => MemoryCell::can_take(input, lowest, highest),
            _ => true,
        }
    }

    /// Puts `cell` in the place of the current cell.
    fn put(&mut self, cell: MemoryCell)
        requires
            old(self)@.wf(),
        ensures
            final(self)@ == old(self)@.with_current(cell.number() as int),
    {
        let pointer = self.pointer();
        self.tape[pointer] = cell;
        assert(self@.tape =~= old(self)@.tape.update(pointer as int, cell.number()));
    }
}

impl CommandRunner for Memory {
    open spec fn wf(&self) -> bool {
        self@.wf()
    }

    open spec fn accepts(&self, request: Request) -> bool {
        self@.accepts(request)
    }

    open spec fn follows(&self, request: Request, after: &Self, event: Event, reply: Reply) -> bool {
        &&& after@ == self@.stepped(request)
        &&& reports(event, answer(request))
        &&& reply == self@.reply(request)
    }

    fn increment(&mut self) -> (event: Event) {
        let mut cell = self.tape[self.pointer()];
        let _ = cell.increment(self.options.lowest(), self.options.highest());
        self.put(cell);
        Ok(OkEvent::Status(Status::new("Increment successful")))
    }

    fn decrement(&mut self) -> (event: Event) {
        let mut cell = self.tape[self.pointer()];
        let _ = cell.decrement(self.options.lowest(), self.options.highest());
        self.put(cell);
        Ok(OkEvent::Status(Status::new("Decrement successful")))
    }

    fn next(&mut self) -> (event: Event) {
        let mut pointer = self.pointer;
        let resize = pointer.increment(self.tape.len(), !self.options.variable_length);
        if resize {
            self.tape.push(MemoryCell::new(self.options.lowest()));
        }
        self.pointer = pointer;
        assert(self.tape@.len() == self.tape.len());
        assert(self@.tape =~= old(self)@.stepped(Request::Next).tape);
        Ok(OkEvent::Status(Status::new("Successfully moved pointer to the next cell.")))
    }

    fn previous(&mut self) -> (event: Event) {
        self.pointer.decrement(self.tape.len());
        assert(self@.tape =~= old(self)@.tape);
        Ok(OkEvent::Status(Status::new("Successfully moved pointer to the previous cell.")))
    }

    fn read_out(&self, output: &mut char) -> (event: Event) {
        let cell = self.tape[self.pointer()];
        cell.to_char(output)
    }

    fn write_in(&mut self, input: char) -> (event: Event) {
        let mut cell = self.tape[self.pointer()];
        let event = cell.from_char(input, self.options.lowest(), self.options.highest());
        self.put(cell);
        event
    }

    fn is_zero(&self, output: &mut bool) -> (event: Event) {
        let cell = self.tape[self.pointer()];
        *output = cell.number() == 0;
        Ok(OkEvent::Status(Status::new("Successfully moved pointer to the previous cell.")))
    }
}

} // verus!
