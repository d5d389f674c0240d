//! The interpreter's data components: the error taxonomy, the stack-or-queue
//! storage, grid coordinates, and the decoded program grid.

use vstd::prelude::*;
use std::collections::VecDeque;
use crate::instruction::AheuiInstruction;
use crate::instruction::instruction_valid;
use crate::instruction::null_instruction;
use crate::instruction::spec_instruction;
use crate::text::decimal_rep;
use crate::text::source_rows;
use crate::text::split_source;

verus! {

/// Everything that can go wrong while a program runs.
#[derive(Debug)]
pub enum AheuiError {
    /// An operation found too few values in the selected storage.
    StorageSizeError,
    /// A step was attempted after termination.
    TerminatedError,
    /// The instruction pointer left the grid; only possible on an empty grid.
    InstructionNotFoundError,
    /// A character was requested from input, but the line held none.
    EmptyInputError,
    /// Checked arithmetic between the two popped values failed.
    ArithmeticError(isize, isize),
    /// Input was needed and none could be read.
    InputError,
    /// Output could not be written.
    OutputError,
    /// A popped value that is no Unicode scalar value.
    InvalidCharError(isize),
    /// An input line (kept here as read) did not parse as an integer.
    InvalidNumberError(String),
}

/// The diagnostic line that an error is reported with.
pub open spec fn message_spec(e: AheuiError) -> Seq<char> {
    match e {
        AheuiError::ArithmeticError(a, b) => "fatal: overflow/underflow occurred with arithmetic operation between "@
            + decimal_rep(a as int) + " and "@ + decimal_rep(b as int),
        AheuiError::InvalidCharError(num) => "fatal: attempted to pop invalid UTF-8 value "@
            + decimal_rep(num as int) + " to output"@,
        AheuiError::InvalidNumberError(num) => "non-number input: "@ + num@,
        AheuiError::EmptyInputError => "no input provided"@,
        AheuiError::InputError => "input error"@,
        AheuiError::OutputError => "output error"@,
        _ => Seq::empty(),
    }
}

impl AheuiError {
    /// Renders this error as its diagnostic line.
    pub fn message(&self) -> (r: String)
        ensures
            r@ == message_spec(*self),
    {
        match self {
            AheuiError::ArithmeticError(a, b) => {
                let mut s = String::from_str(
                    "fatal: overflow/underflow occurred with arithmetic operation between ",
                );
                let sa = crate::text::isize_to_string(*a);
                s.append(sa.as_str());
                s.append(" and ");
                let sb = crate::text::isize_to_string(*b);
                s.append(sb.as_str());
                proof {
                    assert(s@ =~= message_spec(*self));
                }
                s
            },
            AheuiError::InvalidCharError(num) => {
                let mut s = String::from_str("fatal: attempted to pop invalid UTF-8 value ");
                let sn = crate::text::isize_to_string(*num);
                s.append(sn.as_str());
                s.append(" to output");
                proof {
                    assert(s@ =~= message_spec(*self));
                }
                s
            },
            AheuiError::InvalidNumberError(num) => {
                let mut s = String::from_str("non-number input: ");
                s.append(num.as_str());
                proof {
                    assert(s@ =~= message_spec(*self));
                }
                s
            },
            AheuiError::EmptyInputError => String::from_str("no input provided"),
            AheuiError::InputError => String::from_str("input error"),
            AheuiError::OutputError => String::from_str("output error"),
            AheuiError::StorageSizeError => {
                let s = String::new();
                proof {
                    assert(s@ =~= message_spec(*self));
                }
                s
            },
            AheuiError::TerminatedError => {
                let s = String::new();
                proof {
                    assert(s@ =~= message_spec(*self));
                }
                s
            },
            AheuiError::InstructionNotFoundError => {
                let s = String::new();
                proof {
                    assert(s@ =~= message_spec(*self));
                }
                s
            },
        }
    }
}

/// The contents of a storage after a value is pushed: a stack grows at the
/// head, a queue at the tail. The head (index 0) is always the next to pop.
pub open spec fn storage_push(s: Seq<isize>, queue: bool, v: isize) -> Seq<isize> {
    if queue {
        s.push(v)
    } else {
        seq![v] + s
    }
}

/// On a stack, popping right after a push returns the pushed value and
/// restores the previous contents.
pub proof fn lemma_stack_push_pop(s: Seq<isize>, v: isize)
    ensures
        storage_push(s, false, v).len() == s.len() + 1,
        storage_push(s, false, v).first() == v,
        storage_push(s, false, v).drop_first() == s,
{
    assert(storage_push(s, false, v).drop_first() =~= s);
}

/// On a queue of length k, a push leaves the k prior values to be popped in
/// arrival order, followed by the pushed value.
pub proof fn lemma_queue_push_pop(s: Seq<isize>, v: isize)
    ensures
        storage_push(s, true, v).len() == s.len() + 1,
        forall|i: int| 0 <= i < s.len() ==> storage_push(s, true, v)[i] == s[i],
        storage_push(s, true, v)[s.len() as int] == v,
{
}

/// Duplicating the head and then popping leaves the contents unchanged.
pub proof fn lemma_duplicate_pop(s: Seq<isize>)
    requires
        s.len() > 0,
    ensures
        (seq![s.first()] + s).drop_first() == s,
{
    assert((seq![s.first()] + s).drop_first() =~= s);
}

/// One of the machine's 28 value containers, behaving as a stack or a queue.
///
/// Its view is the sequence of held values; the value at index 0 is the next
/// one that `pop` returns.
#[derive(Debug)]
pub struct AheuiStorage {
    storage: VecDeque<isize>,
    queue: bool,
}

impl View for AheuiStorage {
    type V = Seq<isize>;

    closed spec fn view(&self) -> Seq<isize> {
        self.storage@
    }
}

impl AheuiStorage {
    /// Whether this storage is a queue rather than a stack.
    pub closed spec fn is_queue(&self) -> bool {
        self.queue
    }

    /// Creates an empty storage with the given discipline.
    pub fn new(queue: bool) -> (r: Self)
        ensures
            r@ == Seq::<isize>::empty(),
            r.is_queue() == queue,
    {
        Self { storage: VecDeque::new(), queue }
    }

    /// Pushes a value: to the head of a stack, to the tail of a queue.
    pub fn push(&mut self, data: isize)
        ensures
            final(self)@ == storage_push(old(self)@, old(self).is_queue(), data),
            final(self).is_queue() == old(self).is_queue(),
    {
        if self.queue {
            self.storage.push_back(data);
        } else {
            self.storage.push_front(data);
        }
    }

    /// Pops the head value, or returns `None` on an empty storage.
    pub fn pop(&mut self) -> (r: Option<isize>)
        ensures
            final(self).is_queue() == old(self).is_queue(),
            old(self)@.len() == 0 ==> r is None && final(self)@ == old(self)@,
            old(self)@.len() > 0 ==> r == Some(old(self)@.first()) && final(self)@ == old(
                self,
            )@.drop_first(),
    {
        let r = self.storage.pop_front();
        proof {
            if old(self)@.len() > 0 {
                assert(final(self)@ =~= old(self)@.drop_first());
            }
        }
        r
    }

    /// Exchanges the two head values; an error on fewer than two, with the
    /// storage unchanged.
    pub fn swap(&mut self) -> (r: Result<(), AheuiError>)
        ensures
            final(self).is_queue() == old(self).is_queue(),
            old(self)@.len() < 2 ==> (r matches Err(AheuiError::StorageSizeError) && final(self)@
                == old(self)@),
            old(self)@.len() >= 2 ==> (r matches Ok(()) && final(self)@ == old(self)@.update(
                0,
                old(self)@[1],
            ).update(1, old(self)@[0])),
    {
        if self.len() < 2 {
            return Err(AheuiError::StorageSizeError);
        }
        let val1 = self.storage.pop_front().unwrap();
        let val2 = self.storage.pop_front().unwrap();
        self.storage.push_front(val1);
        self.storage.push_front(val2);
        proof {
            assert(final(self)@ =~= old(self)@.update(0, old(self)@[1]).update(1, old(self)@[0]));
        }
        Ok(())
    }

    /// Prepends a copy of the head value; an error on an empty storage. On a
    /// queue too the copy goes to the head, so it is the next value popped.
    pub fn duplicate(&mut self) -> (r: Result<(), AheuiError>)
        ensures
            final(self).is_queue() == old(self).is_queue(),
            old(self)@.len() == 0 ==> (r matches Err(AheuiError::StorageSizeError) && final(self)@
                == old(self)@),
            old(self)@.len() > 0 ==> (r matches Ok(()) && final(self)@ == seq![old(self)@.first()]
                + old(self)@),
    {
        if self.storage.len() == 0 {
            return Err(AheuiError::StorageSizeError);
        }
        let num = self.storage[0];
        self.storage.push_front(num);
        Ok(())
    }

    /// The number of values held.
    pub fn len(&self) -> (r: usize)
        ensures
            r == self@.len(),
    {
        self.storage.len()
    }

    /// The head value, or `None` on an empty storage.
    pub fn peek(&self) -> (r: Option<&isize>)
        ensures
            self@.len() == 0 ==> r is None,
            self@.len() > 0 ==> (r matches Some(v) && *v == self@.first()),
    {
        if self.storage.len() == 0 {
            None
        } else {
            Some(&self.storage[0])
        }
    }
}

/// A position on the program grid: `x` is the column, `y` the row.
#[derive(Debug, Clone, Copy, PartialEq, Eq, Structural)]
pub struct AheuiCoordinates {
    pub x: usize,
    pub y: usize,
}

impl AheuiCoordinates {
    /// The top-left corner of the grid.
    pub fn zero() -> (r: Self)
        ensures
            r.x == 0 && r.y == 0,
    {
        Self { x: 0, y: 0 }
    }
}

/// A rectangular grid of decoded instructions. `size.x` is the width (the
/// longest trimmed source row), `size.y` the height (the number of rows);
/// shorter rows are padded with null instructions.
#[derive(Debug)]
pub struct AheuiProgram {
    pub program: Vec<Vec<AheuiInstruction>>,
    pub size: AheuiCoordinates,
}

/// The instruction that a grid built from the given rows holds at a cell:
/// the decoded character there, or the null instruction beyond a row's end.
pub open spec fn cell_spec(rows: Seq<Seq<char>>, x: int, y: int) -> AheuiInstruction {
    if x < rows[y].len() {
        spec_instruction(rows[y][x])
    } else {
        null_instruction()
    }
}

/// No row is wider than the widest row.
pub proof fn lemma_max_width_bound(rows: Seq<Seq<char>>, i: int)
    requires
        0 <= i < rows.len(),
    ensures
        rows[i].len() <= max_width(rows),
    decreases rows.len(),
{
    if i < rows.len() - 1 {
        lemma_max_width_bound(rows.drop_last(), i);
        assert(rows.drop_last()[i] == rows[i]);
    }
}

/// The width of the widest row.
pub open spec fn max_width(rows: Seq<Seq<char>>) -> int
    decreases rows.len(),
{
    if rows.len() == 0 {
        0
    } else {
        let w = max_width(rows.drop_last());
        if rows.last().len() > w {
            rows.last().len() as int
        } else {
            w
        }
    }
}

impl AheuiProgram {
    /// A rectangular grid of valid instructions whose size names its true
    /// dimensions.
    pub open spec fn wf(&self) -> bool {
        &&& self.program@.len() == self.size.y
        &&& forall|y: int|
            0 <= y < self.program@.len() ==> (#[trigger] self.program@[y])@.len() == self.size.x
        &&& forall|y: int, x: int|
            0 <= y < self.program@.len() && 0 <= x < self.size.x ==> instruction_valid(
                #[trigger] self.program@[y]@[x],
            )
    }

    /// Whether the grid matches a source text: as many rows as the source,
    /// as wide as its widest trimmed row, each cell the decoded character.
    pub open spec fn matches_source(&self, src: Seq<char>) -> bool {
        let rows = source_rows(src);
        &&& self.size.y == rows.len()
        &&& self.size.x == max_width(rows)
        &&& forall|y: int, x: int|
            0 <= y < rows.len() && 0 <= x < max_width(rows) ==> self.program@[y]@[x] == cell_spec(
                rows,
                x,
                y,
            )
    }

    /// Builds the grid of a source text: one row per line (trailing
    /// whitespace trimmed), decoded cell by cell, padded to the widest row.
    pub fn from_str(s: &str) -> (r: Self)
        ensures
            r.wf(),
            r.matches_source(s@),
    {
        let ghost rows_spec = source_rows(s@);
        let lines = split_source(s);
        let mut program: Vec<Vec<AheuiInstruction>> = Vec::new();
        let mut max_col_length: usize = 0;
        let mut row_idx: usize = 0;
        while row_idx < lines.len()
            invariant
                0 <= row_idx <= lines@.len(),
                lines@.len() == rows_spec.len(),
                forall|i: int| 0 <= i < lines@.len() ==> (#[trigger] lines@[i])@ == rows_spec[i],
                rows_spec == source_rows(s@),
                program@.len() == row_idx,
                max_col_length == max_width(rows_spec.take(row_idx as int)),
                forall|y: int|
                    0 <= y < row_idx ==> (#[trigger] program@[y])@.len() == rows_spec[y].len(),
                forall|y: int, x: int|
                    0 <= y < row_idx && 0 <= x < rows_spec[y].len() ==> (
                    #[trigger] program@[y]@[x]) == spec_instruction(rows_spec[y][x]),
            decreases lines@.len() - row_idx,
        {
            let line = &lines[row_idx];
            let mut row: Vec<AheuiInstruction> = Vec::new();
            let mut col: usize = 0;
            while col < line.len()
                invariant
                    0 <= col <= line@.len(),
                    row@.len() == col,
                    forall|x: int|
                        0 <= x < col ==> (#[trigger] row@[x]) == spec_instruction(line@[x]),
                decreases line@.len() - col,
            {
                let aheui_cmd = AheuiInstruction::from_char(line[col]);
                row.push(aheui_cmd);
                col = col + 1;
            }
            let num_chars = line.len();
            if num_chars > max_col_length {
                max_col_length = num_chars;
            }
            program.push(row);
            proof {
                assert(rows_spec.take(row_idx + 1).drop_last() =~= rows_spec.take(
                    row_idx as int,
                ));
                assert(rows_spec.take(row_idx + 1).last() == rows_spec[row_idx as int]);
            }
            row_idx = row_idx + 1;
        }
        proof {
            assert(rows_spec.take(rows_spec.len() as int) =~= rows_spec);
            assert forall|i: int| 0 <= i < rows_spec.len() implies rows_spec[i].len()
                <= max_col_length by {
                lemma_max_width_bound(rows_spec, i);
            }
        }
        let height = row_idx;
        let mut y: usize = 0;
        while y < height
            invariant
                0 <= y <= height,
                height == rows_spec.len(),
                program@.len() == height,
                max_col_length == max_width(rows_spec),
                forall|i: int| 0 <= i < height ==> rows_spec[i].len() <= max_col_length,
                forall|i: int|
                    y <= i < height ==> (#[trigger] program@[i])@.len() == rows_spec[i].len(),
                forall|i: int|
                    0 <= i < y ==> (#[trigger] program@[i])@.len() == max_col_length,
                forall|i: int, x: int|
                    0 <= i < height && 0 <= x < rows_spec[i].len() ==> (
                    #[trigger] program@[i]@[x]) == spec_instruction(rows_spec[i][x]),
                forall|i: int, x: int|
                    0 <= i < y && rows_spec[i].len() <= x < max_col_length ==> (
                    #[trigger] program@[i]@[x]) == null_instruction(),
            decreases height - y,
        {
            let row = &mut program[y];
            let ghost orig_len = rows_spec[y as int].len();
            while row.len() < max_col_length
                invariant
                    orig_len <= row@.len() <= max_col_length,
                    forall|x: int|
                        0 <= x < orig_len ==> (#[trigger] row@[x]) == spec_instruction(
                            rows_spec[y as int][x],
                        ),
                    forall|x: int|
                        orig_len <= x < row@.len() ==> (#[trigger] row@[x]) == null_instruction(),
                decreases max_col_length - row@.len(),
            {
                row.push(AheuiInstruction::null());
            }
            y = y + 1;
        }
        let r = Self {
            program,
            size: AheuiCoordinates { x: max_col_length, y: height },
        };
        proof {
            assert forall|y2: int, x: int|
                0 <= y2 < rows_spec.len() && 0 <= x < max_width(rows_spec) implies r.program@[y2]@[x]
                == cell_spec(rows_spec, x, y2) by {
                if x < rows_spec[y2].len() {
                } else {
                }
            }
            assert forall|y2: int, x: int|
                0 <= y2 < r.program@.len() && 0 <= x < r.size.x implies instruction_valid(
                #[trigger] r.program@[y2]@[x],
            ) by {
                if x < rows_spec[y2].len() {
                    crate::instruction::lemma_spec_instruction_valid(rows_spec[y2][x]);
                } else {
                    crate::instruction::lemma_spec_instruction_valid(' ');
                }
            }
        }
        r
    }

    /// The instruction at a position, or `None` outside the grid.
    pub fn get_instruction(&self, coords: &AheuiCoordinates) -> (r: Option<&AheuiInstruction>)
        ensures
            (coords.y < self.program@.len() && coords.x < self.program@[coords.y as int]@.len())
                <==> r is Some,
            r matches Some(inst) ==> *inst == self.program@[coords.y as int]@[coords.x as int],
    {
        if coords.y < self.program.len() {
            let row = &self.program[coords.y];
            if coords.x < row.len() {
                Some(&row[coords.x])
            } else {
                None
            }
        } else {
            None
        }
    }
}

} // verus!
