//! One cell of the tape: a number kept between two bounds by wrapping round.

use vstd::prelude::*;
use crate::debug::{reports, Event, OkEvent, Status};
use crate::text::{signed_decimal, write_signed};

verus! {

/// The number that a cell holds.
pub type CellNumber = i128;

/// The upper bound of a cell unless another is chosen.
pub fn default_upper() -> (upper: CellNumber)
    ensures
        upper == 255,
{
    0xFF
}

/// The lower bound of a cell unless another is chosen.
pub fn default_lower() -> (lower: CellNumber)
    ensures
        lower == 0,
{
    0x00
}

/// The remainder that the machine's division of `value` by `modulus` leaves:
/// it has the sign of `value`.
pub open spec fn remainder(value: int, modulus: int) -> int {
    if value >= 0 {
        value % modulus
    } else {
        -((-value) % modulus)
    }
}

/// Whether `value` is below `lowest`, or at or above the limit `highest`.
pub open spec fn outside(value: int, lowest: int, highest: int) -> bool {
    value < lowest || value >= highest
}

/// `value` folded by the limit `highest` and moved up by `lowest`.
pub open spec fn folded(value: int, lowest: int, highest: int) -> int {
    remainder(value, highest) + lowest
}

/// Whether the machine can fold `value`: the limit is not zero, the division
/// does not overflow, and the result is a number that a cell can hold.
pub open spec fn foldable(value: int, lowest: int, highest: int) -> bool {
    &&& highest != 0
    &&& !(value == CellNumber::MIN && highest == -1)
    &&& CellNumber::MIN <= folded(value, lowest, highest) <= CellNumber::MAX
}

/// `value` as wrapping leaves it: folded if it is outside the bounds, and
/// untouched otherwise.
pub open spec fn wrapped(value: int, lowest: int, highest: int) -> int {
    if outside(value, lowest, highest) {
        folded(value, lowest, highest)
    } else {
        value
    }
}

/// Whether the machine can wrap `value`.
pub open spec fn wrappable(value: int, lowest: int, highest: int) -> bool {
    outside(value, lowest, highest) ==> foldable(value, lowest, highest)
}

/// `value` after the guard against overflow and the step up by one: a value
/// at the greatest number that a cell can hold is first set back to `lowest`.
pub open spec fn raised(value: int, lowest: int) -> int {
    if value == CellNumber::MAX {
        lowest + 1
    } else {
        value + 1
    }
}

/// Whether the machine can increment `value`.
pub open spec fn incrementable(value: int, lowest: int, highest: int) -> bool {
    &&& raised(value, lowest) <= CellNumber::MAX
    &&& wrappable(raised(value, lowest), lowest, highest)
}

/// `value` after one increment.
pub open spec fn incremented(value: int, lowest: int, highest: int) -> int {
    wrapped(raised(value, lowest), lowest, highest)
}

/// Whether the machine can decrement `value`.
pub open spec fn decrementable(value: int, lowest: int, highest: int) -> bool {
    if value < lowest {
        wrappable(value, lowest, highest)
    } else if value == lowest {
        highest > CellNumber::MIN
    } else {
        true
    }
}

/// `value` after one decrement: wrapped if it is below `lowest`, the upper
/// bound `highest - 1` if it is `lowest`, and one less otherwise.
pub open spec fn decremented(value: int, lowest: int, highest: int) -> int {
    if value < lowest {
        wrapped(value, lowest, highest)
    } else if value == lowest {
        highest - 1
    } else {
        value - 1
    }
}

/// Whether `code` is the number of a character.
pub open spec fn is_scalar(code: int) -> bool {
    0 <= code < 0xD800 || 0xE000 <= code <= 0x10FFFF
}

/// The character that stands in for a number that has none.
pub open spec fn replacement() -> char {
    '\u{FFFD}'
}

/// The character that `value` is shown as: the one whose number is the low
/// 32 bits of `value`, or the replacement character if there is none.
pub open spec fn glyph(value: CellNumber) -> char {
    let code = value as u32;
    if is_scalar(code as int) {
        code as char
    } else {
        replacement()
    }
}

/// The number that a cell takes from the character `input`: the number of
/// the character if that is within the bounds, and that number folded
/// otherwise.
pub open spec fn absorbed(input: char, lowest: int, highest: int) -> int {
    wrapped(input as int, lowest, highest)
}

/// A cell of the tape.
#[derive(Clone, Copy, Debug, Eq, Ord, PartialEq, PartialOrd, Structural)]
pub struct MemoryCell {
    number: CellNumber,
}

impl MemoryCell {
    /// The number in the cell.
    pub closed spec fn spec_number(&self) -> CellNumber {
        self.number
    }

    /// The cell that holds `number`.
    pub closed spec fn holding(number: CellNumber) -> MemoryCell {
        MemoryCell { number }
    }

    /// What a cell holds.
    pub broadcast proof fn lemma_holding(number: CellNumber)
        ensures
            (#[trigger] MemoryCell::holding(number)).number() == number,
    {
    }

    /// A cell that holds `number`.
    pub fn new(number: CellNumber) -> (cell: Self)
        ensures
            cell == MemoryCell::holding(number),
            cell.number() == number,
    {
        Self { number }
    }

    /// Whether the cell holds `lowest`.
    pub fn at_lowest(&self, lowest: CellNumber) -> (at: bool)
        ensures
            at == (self.number() == lowest),
    {
        self.number() == lowest
    }

    /// Whether the cell holds less than `lowest`.
    pub fn below_lowest(&self, lowest: CellNumber) -> (below: bool)
        ensures
            below == (self.number() < lowest),
    {
        self.number() < lowest
    }

    /// Whether the cell holds `highest`.
    pub fn at_highest(&self, highest: CellNumber) -> (at: bool)
        ensures
            at == (self.number() == highest),
    {
        self.number() == highest
    }

    /// Whether the cell holds more than `highest`.
    pub fn above_highest(&self, highest: CellNumber) -> (above: bool)
        ensures
            above == (self.number() > highest),
    {
        self.number() > highest
    }

    /// Whether the machine can fold `value` by the limit `highest` and move
    /// it up by `lowest`.
    fn can_fold(value: CellNumber, lowest: CellNumber, highest: CellNumber) -> (can: bool)
        ensures
            can == foldable(value as int, lowest as int, highest as int),
    {
        if highest == 0 || (value == CellNumber::MIN && highest == -1) {
            false
        } else {
            (value % highest).checked_add(lowest).is_some()
        }
    }

    /// Whether the machine can wrap the cell between `lowest` and the limit
    /// `highest`.
    pub fn can_wrap(&self, lowest: CellNumber, highest: CellNumber) -> (can: bool)
        ensures
            can == wrappable(self.number() as int, lowest as int, highest as int),
    {
        if self.number() < lowest || self.number() >= highest {
            Self::can_fold(self.number(), lowest, highest)
        } else {
            true
        }
    }

    /// Whether the machine can increment the cell between `lowest` and the
    /// limit `highest`.
    pub fn can_increment(&self, lowest: CellNumber, highest: CellNumber) -> (can: bool)
        ensures
            can == incrementable(self.number() as int, lowest as int, highest as int),
    {
        let start = if self.number() == CellNumber::MAX {
            lowest
        } else {
            self.number()
        };
        if start == CellNumber::MAX {
            false
        } else {
            Self::new(start + 1).can_wrap(lowest, highest)
        }
    }

    /// Whether the machine can decrement the cell between `lowest` and the
    /// limit `highest`.
    pub fn can_decrement(&self, lowest: CellNumber, highest: CellNumber) -> (can: bool)
        ensures
            can == decrementable(self.number() as int, lowest as int, highest as int),
    {
        if self.number() < lowest {
            self.can_wrap(lowest, highest)
        } else if self.number() == lowest {
            highest > CellNumber::MIN
        } else {
            true
        }
    }

    /// Whether the machine can take the character `input` into a cell
    /// between `lowest` and the limit `highest`.
    pub fn can_take(input: char, lowest: CellNumber, highest: CellNumber) -> (can: bool)
        ensures
            can == wrappable(input as int, lowest as int, highest as int),
    {
        Self::new(input as CellNumber).can_wrap(lowest, highest)
    }

    /// Wraps the cell: a number below `lowest`, or at or above the limit
    /// `highest`, is replaced by its remainder by `highest`, moved up by
    /// `lowest`.
    pub fn wrap(&mut self, lowest: CellNumber, highest: CellNumber)
        requires
            wrappable(old(self).number() as int, lowest as int, highest as int),
        ensures
            final(self).number() == wrapped(old(self).number() as int, lowest as int, highest as int),
    {
        let value = self.number();
        if self.below_lowest(lowest) || self.at_highest(highest) || self.above_highest(highest) {
            *self.number_mut() = value % highest + lowest;
        }
    }

    /// Steps the cell up by one and wraps it. A cell at the greatest number
    /// it can hold is set back to `lowest` before the step.
    pub fn increment(&mut self, lowest: CellNumber, highest: CellNumber) -> (event: Event)
        requires
            incrementable(old(self).number() as int, lowest as int, highest as int),
        ensures
            final(self).number() == incremented(
                old(self).number() as int,
                lowest as int,
                highest as int,
            ),
            reports(event, "Increment memory cell: OK"@),
    {
        if self.number() == CellNumber::MAX {
            *self.number_mut() = lowest;
        }
        *self.number_mut() += 1;
        self.wrap(lowest, highest);
        Ok(OkEvent::Status(Status::new("Increment memory cell: OK")))
    }

    /// Steps the cell down by one: a cell below `lowest` is wrapped, a cell
    /// at `lowest` goes to the upper bound `highest - 1`, any other goes
    /// down by one.
    pub fn decrement(&mut self, lowest: CellNumber, highest: CellNumber) -> (event: Event)
        requires
            decrementable(old(self).number() as int, lowest as int, highest as int),
        ensures
            final(self).number() == decremented(
                old(self).number() as int,
                lowest as int,
                highest as int,
            ),
            reports(event, "Decrement memory cell: OK"@),
    {
        if self.below_lowest(lowest) {
            self.wrap(lowest, highest);
        } else if self.at_lowest(lowest) {
            *self.number_mut() = highest - 1;
        } else {
            *self.number_mut() -= 1;
        }
        Ok(OkEvent::Status(Status::new("Decrement memory cell: OK")))
    }

    /// Sets the cell to `lowest`.
    pub fn flatten(&mut self, lowest: CellNumber)
        ensures
            final(self).number() == lowest,
    {
        self.number = lowest;
    }

    /// Writes to `output` the character that the cell is shown as.
    pub fn to_char(&self, output: &mut char) -> (event: Event)
        ensures
            *final(output) == glyph(self.number()),
            reports(event, "Output char: OK"@),
    {
        let code: u32 = #[verifier::truncate] (self.number() as u32);
        *output = match char::from_u32(code) {
            Some(c) => c,
            None => '\u{FFFD}',
        };
        Ok(OkEvent::Status(Status::new("Output char: OK")))
    }

    /// Takes the number of the character `input` into the cell, folded if
    /// it is below `lowest` or not below the limit `highest`.
    pub fn from_char(&mut self, input: char, lowest: CellNumber, highest: CellNumber) -> (event:
        Event)
        requires
            wrappable(input as int, lowest as int, highest as int),
        ensures
            final(self).number() == absorbed(input, lowest as int, highest as int),
            reports(event, "Input char: OK"@),
    {
        let mut value = input as CellNumber;
        if lowest <= value && value < highest {
            *self.number_mut() = value;
        } else {
            value = value % highest + lowest;
            *self.number_mut() = value;
        }
        Ok(OkEvent::Status(Status::new("Input char: OK")))
    }

    /// The place where the cell keeps its number.
    fn number_mut(&mut self) -> (number: &mut CellNumber)
        ensures
            *number == old(self).number(),
            final(self).number() == *final(number),
    {
        &mut self.number
    }

    /// The number in the cell.
    #[verifier::when_used_as_spec(spec_number)]
    pub fn number(&self) -> (number: CellNumber)
        ensures
            number == self.number(),
    {
        self.number
    }

    /// The cell as it is shown to a reader: its number in decimal.
    pub fn to_string(&self) -> (text: String)
        ensures
            text@ == signed_decimal(self.number() as int),
    {
        write_signed(self.number())
    }

    /// A cell that holds the least number a cell can hold.
    pub fn minimum() -> (cell: Self)
        ensures
            cell.number() == CellNumber::MIN,
    {
        Self::new(CellNumber::MIN)
    }

    /// A cell that holds the greatest number a cell can hold.
    pub fn maximum() -> (cell: Self)
        ensures
            cell.number() == CellNumber::MAX,
    {
        Self::new(CellNumber::MAX)
    }
}

impl From<CellNumber> for MemoryCell {
    /// A cell that holds `number`.
    fn from(number: CellNumber) -> (cell: Self) {
        Self::new(number)
    }
}

impl vstd::std_specs::convert::FromSpecImpl<CellNumber> for MemoryCell {
    open spec fn obeys_from_spec() -> bool {
        true
    }

    open spec fn from_spec(number: CellNumber) -> Self {
        MemoryCell::holding(number)
    }
}

impl From<MemoryCell> for CellNumber {
    /// The number in `cell`.
    fn from(cell: MemoryCell) -> (number: Self) {
        cell.number()
    }
}

impl vstd::std_specs::convert::FromSpecImpl<MemoryCell> for CellNumber {
    open spec fn obeys_from_spec() -> bool {
        true
    }

    open spec fn from_spec(cell: MemoryCell) -> Self {
        cell.number()
    }
}

impl Default for MemoryCell {
    /// A cell that holds the default lower bound.
    fn default() -> (cell: Self)
        ensures
            cell.number() == 0,
    {
        Self::new(default_lower())
    }
}

/// `value` after `times` increments.
pub open spec fn incremented_by(value: int, lowest: int, highest: int, times: nat) -> int
    decreases times,
{
    if times == 0 {
        value
    } else {
        incremented(incremented_by(value, lowest, highest, (times - 1) as nat), lowest, highest)
    }
}

/// Whether `value` is a number between the bounds `lower` and `upper`, both
/// included, that a cell can hold.
pub open spec fn within(value: int, lower: int, upper: int) -> bool {
    CellNumber::MIN <= lower <= value <= upper <= CellNumber::MAX
}

/// Between bounds whose limit is neither zero nor too great for a cell, a
/// cell can be incremented: it goes up by one, or from the upper bound to the
/// lower, and so stays between the bounds.
pub proof fn lemma_increment_within(value: int, lower: int, upper: int)
    requires
        within(value, lower, upper),
        upper != -1,
        upper < CellNumber::MAX,
    ensures
        incrementable(value, lower, upper + 1),
        incremented(value, lower, upper + 1) == if value == upper {
            lower
        } else {
            value + 1
        },
        within(incremented(value, lower, upper + 1), lower, upper),
{
    let limit = upper + 1;
    assert(remainder(limit, limit) == 0) by {
        if limit > 0 {
            vstd::arithmetic::div_mod::lemma_mod_self_0(limit);
        } else {
            assert((-limit) % limit == 0) by (nonlinear_arith)
                requires
                    limit < 0,
            ;
        }
    }
}

/// Between bounds that a cell can hold, a cell can be decremented: it goes
/// down by one, or from the lower bound to the upper, and so stays between
/// the bounds.
pub proof fn lemma_decrement_within(value: int, lower: int, upper: int)
    requires
        within(value, lower, upper),
        upper < CellNumber::MAX,
    ensures
        decrementable(value, lower, upper + 1),
        decremented(value, lower, upper + 1) == if value == lower {
            upper
        } else {
            value - 1
        },
        within(decremented(value, lower, upper + 1), lower, upper),
{
}

/// Counting up from `value` without passing the upper bound adds the count.
proof fn lemma_climb(value: int, lower: int, upper: int, times: nat)
    requires
        within(value, lower, upper),
        upper != -1,
        upper < CellNumber::MAX,
        value + times <= upper,
    ensures
        incremented_by(value, lower, upper + 1, times) == value + times,
    decreases times,
{
    if times > 0 {
        lemma_climb(value, lower, upper, (times - 1) as nat);
        lemma_increment_within(value + times - 1, lower, upper);
    }
}

/// Counting `first` times and then `then` times is counting `first + then`
/// times.
proof fn lemma_count_on(value: int, lowest: int, highest: int, first: nat, then: nat)
    ensures
        incremented_by(value, lowest, highest, first + then) == incremented_by(
            incremented_by(value, lowest, highest, first),
            lowest,
            highest,
            then,
        ),
    decreases then,
{
    if then > 0 {
        lemma_count_on(value, lowest, highest, first, (then - 1) as nat);
        assert((first + then - 1) as nat == first + (then - 1) as nat);
    }
}

/// Wrapping round comes back: a cell between its bounds that is incremented
/// once for every number between the bounds holds what it held at first.
/// The limit, one above the upper bound, must be a number that a cell can
/// hold, and not zero.
pub proof fn lemma_increment_cycle(value: int, lower: int, upper: int)
    requires
        within(value, lower, upper),
        upper != -1,
        upper < CellNumber::MAX,
    ensures
        incremented_by(value, lower, upper + 1, (upper - lower + 1) as nat) == value,
{
    let limit = upper + 1;
    let up = (upper - value) as nat;
    let rest = (value - lower) as nat;
    lemma_climb(value, lower, upper, up);
    lemma_increment_within(upper, lower, upper);
    assert(incremented_by(value, lower, limit, up + 1) == lower);
    lemma_climb(lower, lower, upper, rest);
    lemma_count_on(value, lower, limit, up + 1, rest);
    assert(up + 1 + rest == (upper - lower + 1) as nat);
}

/// Showing a cell as a character and taking the character back leaves the
/// cell as it was, where the cell holds the number of a character that is
/// at least `lowest` and below the limit `highest`.
pub proof fn lemma_char_round_trip(value: CellNumber, lowest: CellNumber, highest: CellNumber)
    requires
        lowest <= value < highest,
        is_scalar(value as int),
    ensures
        wrappable(glyph(value) as int, lowest as int, highest as int),
        absorbed(glyph(value), lowest as int, highest as int) == value,
{
    assert(value as u32 == value);
}

} // verus!
