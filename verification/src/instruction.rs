//! Decoding of a character into an Aheui instruction: the onset selects the
//! operation, the vowel the movement direction, and the coda the argument.

use vstd::prelude::*;
use crate::hangul::HangulCoda;
use crate::hangul::HangulOnset;
use crate::hangul::HangulSyllable;
use crate::hangul::HangulVowel;
use crate::hangul::is_syllable_code;

verus! {

/// Operation selected by the onset of a syllable.
#[derive(Debug, Clone, Copy, PartialEq, Eq, Structural)]
pub enum AheuiOperation {
    Null,
    Terminate,
    Add,
    Multiply,
    Divide,
    Subtract,
    Modulo,
    Pop,
    Push,
    Duplicate,
    Swap,
    StoreSelect,
    StoreTransfer,
    Compare,
    Fork,
}

/// Movement direction selected by the vowel of a syllable.
///
/// The `bool` of a cardinal direction doubles the stride from one cell to two.
/// `Null` keeps the current direction; the reflections mirror it.
#[derive(Debug, Clone, Copy, PartialEq, Eq, Structural)]
pub enum AheuiDirection {
    Null,
    Up(bool),
    Down(bool),
    Left(bool),
    Right(bool),
    ReflectX,
    ReflectY,
    ReflectXY,
}

/// Operation argument selected by the coda of a syllable.
#[derive(Debug, Clone, Copy, PartialEq, Eq, Structural)]
pub enum AheuiArgument {
    Null,
    AsInt,
    AsChar,
    Storage(usize),
    Number(usize),
}

/// One decoded program cell.
#[derive(Debug, Clone, Copy, PartialEq, Eq, Structural)]
pub struct AheuiInstruction {
    pub operation: AheuiOperation,
    pub direction: AheuiDirection,
    pub argument: AheuiArgument,
    pub character: char,
}

/// Operation of the onset with the given index.
pub open spec fn operation_of_onset_index(i: int) -> AheuiOperation {
    if i == 2 {
        AheuiOperation::Divide
    } else if i == 3 {
        AheuiOperation::Add
    } else if i == 4 {
        AheuiOperation::Multiply
    } else if i == 5 {
        AheuiOperation::Modulo
    } else if i == 6 {
        AheuiOperation::Pop
    } else if i == 7 {
        AheuiOperation::Push
    } else if i == 8 {
        AheuiOperation::Duplicate
    } else if i == 9 {
        AheuiOperation::StoreSelect
    } else if i == 10 {
        AheuiOperation::StoreTransfer
    } else if i == 12 {
        AheuiOperation::Compare
    } else if i == 14 {
        AheuiOperation::Fork
    } else if i == 16 {
        AheuiOperation::Subtract
    } else if i == 17 {
        AheuiOperation::Swap
    } else if i == 18 {
        AheuiOperation::Terminate
    } else {
        AheuiOperation::Null
    }
}

/// Direction of the vowel with the given index.
pub open spec fn direction_of_vowel_index(i: int) -> AheuiDirection {
    if i == 0 {
        AheuiDirection::Right(false)
    } else if i == 2 {
        AheuiDirection::Right(true)
    } else if i == 4 {
        AheuiDirection::Left(false)
    } else if i == 6 {
        AheuiDirection::Left(true)
    } else if i == 8 {
        AheuiDirection::Up(false)
    } else if i == 12 {
        AheuiDirection::Up(true)
    } else if i == 13 {
        AheuiDirection::Down(false)
    } else if i == 17 {
        AheuiDirection::Down(true)
    } else if i == 18 {
        AheuiDirection::ReflectY
    } else if i == 19 {
        AheuiDirection::ReflectXY
    } else if i == 20 {
        AheuiDirection::ReflectX
    } else {
        AheuiDirection::Null
    }
}

/// Literal pushed by a Push instruction whose coda has the given index:
/// the stroke count of that final consonant.
pub open spec fn push_literal(i: int) -> int {
    if i == 1 || i == 4 || i == 19 {
        2
    } else if i == 7 || i == 22 || i == 24 {
        3
    } else if i == 2 || i == 3 || i == 16 || i == 17 || i == 20 || i == 23 || i == 25 || i == 26 {
        4
    } else if i == 5 || i == 6 || i == 8 {
        5
    } else if i == 18 {
        6
    } else if i == 9 || i == 12 {
        7
    } else if i == 15 {
        8
    } else if i == 10 || i == 11 || i == 13 || i == 14 {
        9
    } else {
        0
    }
}

/// Argument of an instruction, from its operation and the index of its coda.
pub open spec fn argument_of(op: AheuiOperation, coda: int) -> AheuiArgument {
    match op {
        AheuiOperation::Pop => if coda == 21 {
            AheuiArgument::AsInt
        } else if coda == 27 {
            AheuiArgument::AsChar
        } else {
            AheuiArgument::Null
        },
        AheuiOperation::Push => if coda == 21 {
            AheuiArgument::AsInt
        } else if coda == 27 {
            AheuiArgument::AsChar
        } else {
            AheuiArgument::Number(push_literal(coda) as usize)
        },
        AheuiOperation::StoreSelect => AheuiArgument::Storage(coda as usize),
        AheuiOperation::StoreTransfer => AheuiArgument::Storage(coda as usize),
        _ => AheuiArgument::Null,
    }
}

/// The cell that a non-syllable character decodes to: no operation, inert
/// direction, no argument.
pub open spec fn null_instruction() -> AheuiInstruction {
    AheuiInstruction {
        operation: AheuiOperation::Null,
        direction: AheuiDirection::Null,
        argument: AheuiArgument::Null,
        character: ' ',
    }
}

/// The instruction that a character decodes to.
pub open spec fn spec_instruction(c: char) -> AheuiInstruction {
    if is_syllable_code(c as int) {
        let h = c as int - 0xAC00;
        let op = operation_of_onset_index(h / 588);
        AheuiInstruction {
            operation: op,
            direction: direction_of_vowel_index((h % 588) / 28),
            argument: argument_of(op, h % 28),
            character: c,
        }
    } else {
        null_instruction()
    }
}

/// An instruction as the decoder produces it: every argument index is small
/// enough for the machine, and the operations that need an argument have one.
pub open spec fn instruction_valid(inst: AheuiInstruction) -> bool {
    &&& (forall|n: usize| inst.argument == AheuiArgument::Number(n) ==> n <= 9)
    &&& (forall|k: usize| inst.argument == AheuiArgument::Storage(k) ==> k < 28)
    &&& (inst.operation == AheuiOperation::StoreSelect ==> inst.argument matches AheuiArgument::Storage(_))
    &&& (inst.operation == AheuiOperation::StoreTransfer ==> inst.argument matches AheuiArgument::Storage(_))
}

/// Every decoded instruction is valid.
pub proof fn lemma_spec_instruction_valid(c: char)
    ensures
        instruction_valid(spec_instruction(c)),
{
}

impl AheuiOperation {
    /// Checked arithmetic between two operands, `a` on the left; `None` for a
    /// non-arithmetic operation, overflow, or division by zero.
    pub open spec fn arithmetic_spec(self, a: isize, b: isize) -> Option<isize> {
        match self {
            AheuiOperation::Add => a.checked_add(b),
            AheuiOperation::Multiply => a.checked_mul(b),
            AheuiOperation::Divide => a.checked_div(b),
            AheuiOperation::Subtract => a.checked_sub(b),
            AheuiOperation::Modulo => a.checked_rem(b),
            _ => None,
        }
    }

    /// Performs the checked arithmetic that this operation stands for.
    pub fn arithmetic_operation(&self, a: isize, b: isize) -> (r: Option<isize>)
        ensures
            r == self.arithmetic_spec(a, b),
    {
        match *self {
            AheuiOperation::Add => a.checked_add(b),
            AheuiOperation::Multiply => a.checked_mul(b),
            AheuiOperation::Divide => a.checked_div(b),
            AheuiOperation::Subtract => a.checked_sub(b),
            AheuiOperation::Modulo => a.checked_rem(b),
            _ => None,
        }
    }
}

/// A direction mirrored left-to-right.
pub open spec fn reflect_x_spec(d: AheuiDirection) -> AheuiDirection {
    match d {
        AheuiDirection::Left(b) => AheuiDirection::Right(b),
        AheuiDirection::Right(b) => AheuiDirection::Left(b),
        _ => d,
    }
}

/// A direction mirrored top-to-bottom.
pub open spec fn reflect_y_spec(d: AheuiDirection) -> AheuiDirection {
    match d {
        AheuiDirection::Up(b) => AheuiDirection::Down(b),
        AheuiDirection::Down(b) => AheuiDirection::Up(b),
        _ => d,
    }
}

/// A direction mirrored along both axes.
pub open spec fn reflect_xy_spec(d: AheuiDirection) -> AheuiDirection {
    match d {
        AheuiDirection::Up(b) => AheuiDirection::Down(b),
        AheuiDirection::Down(b) => AheuiDirection::Up(b),
        AheuiDirection::Left(b) => AheuiDirection::Right(b),
        AheuiDirection::Right(b) => AheuiDirection::Left(b),
        _ => d,
    }
}

impl AheuiDirection {
    /// Mirrors this direction left-to-right.
    pub fn reflect_x(&mut self)
        ensures
            *final(self) == reflect_x_spec(*old(self)),
    {
        match *self {
            AheuiDirection::Left(b) => *self = AheuiDirection::Right(b),
            AheuiDirection::Right(b) => *self = AheuiDirection::Left(b),
            _ => {},
        };
    }

    /// Mirrors this direction top-to-bottom.
    pub fn reflect_y(&mut self)
        ensures
            *final(self) == reflect_y_spec(*old(self)),
    {
        match *self {
            AheuiDirection::Up(b) => *self = AheuiDirection::Down(b),
            AheuiDirection::Down(b) => *self = AheuiDirection::Up(b),
            _ => {},
        };
    }

    /// Mirrors this direction along both axes.
    pub fn reflect_xy(&mut self)
        ensures
            *final(self) == reflect_xy_spec(*old(self)),
    {
        match *self {
            AheuiDirection::Up(b) => *self = AheuiDirection::Down(b),
            AheuiDirection::Down(b) => *self = AheuiDirection::Up(b),
            AheuiDirection::Left(b) => *self = AheuiDirection::Right(b),
            AheuiDirection::Right(b) => *self = AheuiDirection::Left(b),
            _ => {},
        };
    }
}

impl AheuiInstruction {
    /// Decodes one character into an instruction. Characters outside the
    /// Hangul syllable block decode to the null instruction.
    pub fn from_char(cmd: char) -> (r: Self)
        ensures
            r == spec_instruction(cmd),
    {
        let syllable = match HangulSyllable::from_char(cmd) {
            Some(syllable) => syllable,
            None => {
                return AheuiInstruction::null();
            },
        };

        let operation = match syllable.onset {
            HangulOnset::Hieut => AheuiOperation::Terminate,
            HangulOnset::Digeut => AheuiOperation::Add,
            HangulOnset::SsangDigeut => AheuiOperation::Multiply,
            HangulOnset::Nieun => AheuiOperation::Divide,
            HangulOnset::Tigeut => AheuiOperation::Subtract,
            HangulOnset::Rieul => AheuiOperation::Modulo,
            HangulOnset::Mieum => AheuiOperation::Pop,
            HangulOnset::Bieup => AheuiOperation::Push,
            HangulOnset::SsangBieup => AheuiOperation::Duplicate,
            HangulOnset::Siot => AheuiOperation::StoreSelect,
            HangulOnset::SsangSiot => AheuiOperation::StoreTransfer,
            HangulOnset::Jieut => AheuiOperation::Compare,
            HangulOnset::Chieut => AheuiOperation::Fork,
            HangulOnset::Pieup => AheuiOperation::Swap,
            _ => AheuiOperation::Null,
        };

        let argument = match operation {
            AheuiOperation::Pop => match syllable.coda {
                HangulCoda::Ieung => AheuiArgument::AsInt,
                HangulCoda::Hieut => AheuiArgument::AsChar,
                _ => AheuiArgument::Null,
            },
            AheuiOperation::Push => match syllable.coda {
                HangulCoda::Null => AheuiArgument::Number(0),
                HangulCoda::Ieung => AheuiArgument::AsInt,
                HangulCoda::Hieut => AheuiArgument::AsChar,
                HangulCoda::Giyeok
                | HangulCoda::Nieun
                | HangulCoda::Siot => AheuiArgument::Number(2),
                HangulCoda::Digeut
                | HangulCoda::Jieut
                | HangulCoda::Kieuk => AheuiArgument::Number(3),
                HangulCoda::Mieum
                | HangulCoda::Bieup
                | HangulCoda::Pieup
                | HangulCoda::Chieut
                | HangulCoda::Tigeut
                | HangulCoda::SsangGiyeok
                | HangulCoda::GiyeokSiot
                | HangulCoda::SsangSiot => AheuiArgument::Number(4),
                HangulCoda::Rieul
                | HangulCoda::NieunJieut
                | HangulCoda::NieunHieut => AheuiArgument::Number(5),
                HangulCoda::BieupSiot => AheuiArgument::Number(6),
                HangulCoda::RieulGiyeok
                | HangulCoda::RieulSiot => AheuiArgument::Number(7),
                HangulCoda::RieulHieut => AheuiArgument::Number(8),
                HangulCoda::RieulMieum
                | HangulCoda::RieulBieup
                | HangulCoda::RieulTigeut
                | HangulCoda::RieulPieup => AheuiArgument::Number(9),
            },
            AheuiOperation::StoreSelect | AheuiOperation::StoreTransfer => {
                let coda_num = coda_to_index(syllable.coda);
                AheuiArgument::Storage(coda_num)
            },
            _ => AheuiArgument::Null,
        };

        let direction = match syllable.vowel {
            HangulVowel::A => AheuiDirection::Right(false),
            HangulVowel::Ya => AheuiDirection::Right(true),
            HangulVowel::Eo => AheuiDirection::Left(false),
            HangulVowel::Yeo => AheuiDirection::Left(true),
            HangulVowel::O => AheuiDirection::Up(false),
            HangulVowel::Yo => AheuiDirection::Up(true),
            HangulVowel::U => AheuiDirection::Down(false),
            HangulVowel::Yu => AheuiDirection::Down(true),
            HangulVowel::Eu => AheuiDirection::ReflectY,
            HangulVowel::I => AheuiDirection::ReflectX,
            HangulVowel::Ui => AheuiDirection::ReflectXY,
            _ => AheuiDirection::Null,
        };

        Self { operation, direction, argument, character: cmd }
    }

    /// The null instruction.
    pub fn null() -> (r: Self)
        ensures
            r == null_instruction(),
    {
        Self {
            operation: AheuiOperation::Null,
            direction: AheuiDirection::Null,
            argument: AheuiArgument::Null,
            character: ' ',
        }
    }
}

fn coda_to_index(coda: HangulCoda) -> (r: usize)
    ensures
        r == crate::hangul::coda_index(coda),
{
    match coda {
        HangulCoda::Null => 0,
        HangulCoda::Giyeok => 1,
        HangulCoda::SsangGiyeok => 2,
        HangulCoda::GiyeokSiot => 3,
        HangulCoda::Nieun => 4,
        HangulCoda::NieunJieut => 5,
        HangulCoda::NieunHieut => 6,
        HangulCoda::Digeut => 7,
        HangulCoda::Rieul => 8,
        HangulCoda::RieulGiyeok => 9,
        HangulCoda::RieulMieum => 10,
        HangulCoda::RieulBieup => 11,
        HangulCoda::RieulSiot => 12,
        HangulCoda::RieulTigeut => 13,
        HangulCoda::RieulPieup => 14,
        HangulCoda::RieulHieut => 15,
        HangulCoda::Mieum => 16,
        HangulCoda::Bieup => 17,
        HangulCoda::BieupSiot => 18,
        HangulCoda::Siot => 19,
        HangulCoda::SsangSiot => 20,
        HangulCoda::Ieung => 21,
        HangulCoda::Jieut => 22,
        HangulCoda::Chieut => 23,
        HangulCoda::Kieuk => 24,
        HangulCoda::Tigeut => 25,
        HangulCoda::Pieup => 26,
        HangulCoda::Hieut => 27,
    }
}

} // verus!
