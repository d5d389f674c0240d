//! An interpreter core for Aheui, a two-dimensional esoteric programming
//! language whose program cells are precomposed Hangul syllables. The machine
//! owns a grid of decoded instructions, a bank of 28 stack-or-queue storages,
//! and a wrapping instruction pointer; one `step` executes one cell.

pub mod hangul;
pub mod instruction;
pub mod text;
pub mod component;

use vstd::prelude::*;
use crate::component::AheuiCoordinates;
use crate::component::AheuiError;
use crate::component::AheuiProgram;
use crate::component::AheuiStorage;
use crate::component::storage_push;
use crate::instruction::AheuiArgument;
use crate::instruction::AheuiDirection;
use crate::instruction::AheuiInstruction;
use crate::instruction::AheuiOperation;
use crate::instruction::instruction_valid;
use crate::instruction::reflect_x_spec;
use crate::instruction::reflect_xy_spec;
use crate::instruction::reflect_y_spec;
use crate::text::decimal_rep;
use crate::text::parsed_int;
use crate::text::trim_ws;

verus! {

/// The mathematical state of the machine: the decoded grid with its
/// dimensions, the 28 storage contents, the selected storage, the
/// instruction pointer, its direction, and the terminated flag.
#[verifier::ext_equal]
pub struct MachineModel {
    pub grid: Seq<Seq<AheuiInstruction>>,
    pub width: int,
    pub height: int,
    pub terminated: bool,
    pub storages: Seq<Seq<isize>>,
    pub storage_index: int,
    pub x: int,
    pub y: int,
    pub direction: AheuiDirection,
}

/// The ghost mirror of `AheuiError`; a text payload appears as its character
/// sequence.
pub enum ErrorModel {
    StorageSize,
    Terminated,
    InstructionNotFound,
    EmptyInput,
    Arithmetic(isize, isize),
    Input,
    Output,
    InvalidChar(isize),
    InvalidNumber(Seq<char>),
}

impl View for AheuiError {
    type V = ErrorModel;

    open spec fn view(&self) -> ErrorModel {
        match self {
            AheuiError::StorageSizeError => ErrorModel::StorageSize,
            AheuiError::TerminatedError => ErrorModel::Terminated,
            AheuiError::InstructionNotFoundError => ErrorModel::InstructionNotFound,
            AheuiError::EmptyInputError => ErrorModel::EmptyInput,
            AheuiError::ArithmeticError(a, b) => ErrorModel::Arithmetic(*a, *b),
            AheuiError::InputError => ErrorModel::Input,
            AheuiError::OutputError => ErrorModel::Output,
            AheuiError::InvalidCharError(v) => ErrorModel::InvalidChar(*v),
            AheuiError::InvalidNumberError(s) => ErrorModel::InvalidNumber(s@),
        }
    }
}

/// Which storage indices hold queues: 21 and 27; every other index holds a
/// stack.
pub open spec fn is_queue_index(i: int) -> bool {
    i == 21 || i == 27
}

/// A lower bound of one, so that the pointer of an empty grid still has a
/// well-formed (if unreachable) cell range.
pub open spec fn max1(n: int) -> int {
    if n < 1 {
        1
    } else {
        n
    }
}

/// Whether a direction actually moves: one of the four cardinal directions.
pub open spec fn is_cardinal(d: AheuiDirection) -> bool {
    match d {
        AheuiDirection::Up(_) => true,
        AheuiDirection::Down(_) => true,
        AheuiDirection::Left(_) => true,
        AheuiDirection::Right(_) => true,
        _ => false,
    }
}

/// The direction the machine takes at a cell: an inert cell keeps the current
/// direction, a mirror cell reflects it, a cardinal cell replaces it.
pub open spec fn effective_direction(cur: AheuiDirection, ins: AheuiDirection) -> AheuiDirection {
    match ins {
        AheuiDirection::Null => cur,
        AheuiDirection::ReflectX => reflect_x_spec(cur),
        AheuiDirection::ReflectY => reflect_y_spec(cur),
        AheuiDirection::ReflectXY => reflect_xy_spec(cur),
        d => d,
    }
}

/// Cells moved per step: two in fast mode, one otherwise.
pub open spec fn stride(fast: bool) -> int {
    if fast {
        2
    } else {
        1
    }
}

/// One unit step forward along an axis of length `w`, wrapping to 0 at the
/// edge.
pub open spec fn wrap_inc_spec(p: int, w: int) -> int {
    if p + 1 >= w {
        0
    } else {
        p + 1
    }
}

/// One unit step backward along an axis of length `w`, wrapping to the far
/// edge at 0.
pub open spec fn wrap_dec_spec(p: int, w: int) -> int {
    if p <= 0 {
        w - 1
    } else {
        p - 1
    }
}

/// The coordinate after moving along one axis: `forward` gives the positive
/// direction, `fast` a stride of two unit steps.
pub open spec fn moved_coord(p: int, w: int, forward: bool, fast: bool) -> int {
    if forward {
        if fast {
            wrap_inc_spec(wrap_inc_spec(p, w), w)
        } else {
            wrap_inc_spec(p, w)
        }
    } else {
        if fast {
            wrap_dec_spec(wrap_dec_spec(p, w), w)
        } else {
            wrap_dec_spec(p, w)
        }
    }
}

/// Movement is on a torus: the coordinate after a move is the old coordinate
/// plus or minus the stride, modulo the axis length.
pub proof fn lemma_move_is_modular(p: int, w: int, fast: bool)
    requires
        w >= 1,
        0 <= p < w,
    ensures
        moved_coord(p, w, true, fast) == (p + stride(fast)) % w,
        moved_coord(p, w, false, fast) == (p - stride(fast)) % w,
{
    let m = stride(fast);
    let fwd = moved_coord(p, w, true, fast);
    let bwd = moved_coord(p, w, false, fast);
    if p + m < w {
        vstd::arithmetic::div_mod::lemma_fundamental_div_mod_converse(p + m, w, 0, p + m);
    } else if p + m < 2 * w {
        vstd::arithmetic::div_mod::lemma_fundamental_div_mod_converse(p + m, w, 1, p + m - w);
    } else {
        vstd::arithmetic::div_mod::lemma_fundamental_div_mod_converse(p + m, w, 2, p + m - 2 * w);
    }
    if p - m >= 0 {
        vstd::arithmetic::div_mod::lemma_fundamental_div_mod_converse(p - m, w, 0, p - m);
    } else if p - m + w >= 0 {
        vstd::arithmetic::div_mod::lemma_fundamental_div_mod_converse(p - m, w, -1, p - m + w);
    } else {
        vstd::arithmetic::div_mod::lemma_fundamental_div_mod_converse(p - m, w, -2, p - m + 2 * w);
    }
}

/// The machine after a successful operation: the effective direction is
/// adopted and the pointer moves by its stride, wrapping at the grid edges.
pub open spec fn machine_after_move(m: MachineModel, inst_dir: AheuiDirection) -> MachineModel {
    let d = effective_direction(m.direction, inst_dir);
    match d {
        AheuiDirection::Right(f) => MachineModel {
            x: moved_coord(m.x, m.width, true, f),
            direction: d,
            ..m
        },
        AheuiDirection::Left(f) => MachineModel {
            x: moved_coord(m.x, m.width, false, f),
            direction: d,
            ..m
        },
        AheuiDirection::Down(f) => MachineModel {
            y: moved_coord(m.y, m.height, true, f),
            direction: d,
            ..m
        },
        AheuiDirection::Up(f) => MachineModel {
            y: moved_coord(m.y, m.height, false, f),
            direction: d,
            ..m
        },
        _ => MachineModel { direction: d, ..m },
    }
}

/// The machine after a failed operation: both the machine's direction and the
/// cell's direction are mirrored along both axes, then the move proceeds as
/// usual, so the pointer bounces back the way it came.
pub open spec fn machine_after_reflect(m: MachineModel, inst_dir: AheuiDirection) -> MachineModel {
    machine_after_move(
        MachineModel { direction: reflect_xy_spec(m.direction), ..m },
        reflect_xy_spec(inst_dir),
    )
}

/// A well-formed machine: a rectangular grid of valid instructions whose size
/// is as stated, 28 storages, a selected storage, the pointer inside the grid
/// (or at (0,0) on an empty grid), and a direction that moves.
pub open spec fn model_wf(m: MachineModel) -> bool {
    &&& m.grid.len() == m.height
    &&& forall|y: int| 0 <= y < m.height ==> (#[trigger] m.grid[y]).len() == m.width
    &&& forall|y: int, x: int|
        0 <= y < m.height && 0 <= x < m.width ==> instruction_valid(#[trigger] m.grid[y][x])
    &&& m.storages.len() == 28
    &&& 0 <= m.storage_index < 28
    &&& 0 <= m.x < max1(m.width)
    &&& 0 <= m.y < max1(m.height)
    &&& is_cardinal(m.direction)
}

/// The whole interpreter state.
#[derive(Debug)]
pub struct AheuiState {
    pub program: AheuiProgram,
    pub terminated: bool,
    pub storages: Vec<AheuiStorage>,
    pub storage_index: usize,
    pub position: AheuiCoordinates,
    pub direction: AheuiDirection,
}

impl View for AheuiState {
    type V = MachineModel;

    open spec fn view(&self) -> MachineModel {
        MachineModel {
            grid: self.program.program@.map_values(|row: Vec<AheuiInstruction>| row@),
            width: self.program.size.x as int,
            height: self.program.size.y as int,
            terminated: self.terminated,
            storages: self.storages@.map_values(|s: AheuiStorage| s@),
            storage_index: self.storage_index as int,
            x: self.position.x as int,
            y: self.position.y as int,
            direction: self.direction,
        }
    }
}

impl AheuiState {
    /// A well-formed state: its model is well-formed and each storage's
    /// discipline matches its index.
    pub open spec fn wf(&self) -> bool {
        &&& self.program.wf()
        &&& self.storages@.len() == 28
        &&& forall|i: int|
            0 <= i < 28 ==> ((#[trigger] self.storages@[i]).is_queue() <==> is_queue_index(i))
        &&& self.storage_index < 28
        &&& self.position.x < max1(self.program.size.x as int)
        &&& self.position.y < max1(self.program.size.y as int)
        &&& is_cardinal(self.direction)
    }
}

/// A well-formed state has a well-formed model: the pointer is inside the
/// grid (or the grid is empty), there are 28 storages, and every cell holds a
/// valid instruction.
pub proof fn lemma_state_model_wf(s: AheuiState)
    requires
        s.wf(),
    ensures
        model_wf(s@),
{
    assert forall|y: int| 0 <= y < s@.height implies (#[trigger] s@.grid[y]).len() == s@.width by {
        assert(s@.grid[y] == s.program.program@[y]@);
    }
    assert forall|y: int, x: int|
        0 <= y < s@.height && 0 <= x < s@.width implies instruction_valid(
        #[trigger] s@.grid[y][x],
    ) by {
        assert(s@.grid[y] == s.program.program@[y]@);
    }
}

fn wrap_inc(p: usize, w: usize) -> (r: usize)
    requires
        w >= 1,
        p < w,
    ensures
        r as int == wrap_inc_spec(p as int, w as int),
        r < w,
{
    if p + 1 == w {
        0
    } else {
        p + 1
    }
}

fn wrap_dec(p: usize, w: usize) -> (r: usize)
    requires
        w >= 1,
        p < w,
    ensures
        r as int == wrap_dec_spec(p as int, w as int),
        r < w,
{
    if p == 0 {
        w - 1
    } else {
        p - 1
    }
}

impl AheuiState {
    /// Builds the initial machine for a source text: the decoded grid, 28
    /// empty storages (queues at 21 and 27, stacks elsewhere), storage 0
    /// selected, the pointer at the top-left corner moving down slowly.
    pub fn init(prog: &str) -> (r: Self)
        ensures
            r.wf(),
            r.program.matches_source(prog@),
            r@.terminated == false,
            r@.storage_index == 0,
            r@.x == 0 && r@.y == 0,
            r@.direction == AheuiDirection::Down(false),
            forall|i: int| 0 <= i < 28 ==> (#[trigger] r@.storages[i]) == Seq::<isize>::empty(),
    {
        let program = AheuiProgram::from_str(prog);
        let mut storages: Vec<AheuiStorage> = Vec::new();
        let mut i: usize = 0;
        while i < 28
            invariant
                0 <= i <= 28,
                storages@.len() == i,
                forall|k: int|
                    0 <= k < i ==> ((#[trigger] storages@[k]).is_queue() <==> is_queue_index(k)),
                forall|k: int| 0 <= k < i ==> (#[trigger] storages@[k])@ == Seq::<isize>::empty(),
            decreases 28 - i,
        {
            storages.push(AheuiStorage::new(i == 21 || i == 27));
            i = i + 1;
        }
        let r = Self {
            program,
            terminated: false,
            storages,
            storage_index: 0,
            position: AheuiCoordinates::zero(),
            direction: AheuiDirection::Down(false),
        };
        proof {
            assert forall|k: int| 0 <= k < 28 implies (#[trigger] r@.storages[k]) == Seq::<
                isize,
            >::empty() by {
                assert(r@.storages[k] == r.storages@[k]@);
            }
        }
        r
    }

    /// Adopts the effective direction for the given cell direction and moves
    /// the pointer one stride, wrapping around the grid edges.
    pub fn step_coordinate(&mut self, new_direction: AheuiDirection)
        requires
            old(self).wf(),
            old(self).program.size.x >= 1,
            old(self).program.size.y >= 1,
        ensures
            final(self)@ == machine_after_move(old(self)@, new_direction),
            final(self).wf(),
            final(self).program == old(self).program,
            final(self).storages == old(self).storages,
            final(self).terminated == old(self).terminated,
            final(self).storage_index == old(self).storage_index,
    {
        let mut final_direction = self.direction;
        match new_direction {
            AheuiDirection::Null => {},
            AheuiDirection::ReflectX => final_direction.reflect_x(),
            AheuiDirection::ReflectY => final_direction.reflect_y(),
            AheuiDirection::ReflectXY => final_direction.reflect_xy(),
            _ => {
                final_direction = new_direction;
            },
        };
        let w = self.program.size.x;
        let h = self.program.size.y;
        match final_direction {
            AheuiDirection::Left(b) => {
                self.position.x = wrap_dec(self.position.x, w);
                if b {
                    self.position.x = wrap_dec(self.position.x, w);
                }
            },
            AheuiDirection::Right(b) => {
                self.position.x = wrap_inc(self.position.x, w);
                if b {
                    self.position.x = wrap_inc(self.position.x, w);
                }
            },
            AheuiDirection::Up(b) => {
                self.position.y = wrap_dec(self.position.y, h);
                if b {
                    self.position.y = wrap_dec(self.position.y, h);
                }
            },
            AheuiDirection::Down(b) => {
                self.position.y = wrap_inc(self.position.y, h);
                if b {
                    self.position.y = wrap_inc(self.position.y, h);
                }
            },
            _ => {},
        };
        self.direction = final_direction;
        proof {
            assert(final(self)@ =~= machine_after_move(old(self)@, new_direction));
        }
    }

    /// Whether the next step would read a line of input: the machine is live
    /// and stands on a push-from-input cell.
    pub fn needs_input(&self) -> (r: bool)
        requires
            self.wf(),
        ensures
            r == wants_input(self@),
    {
        if self.terminated {
            return false;
        }
        match self.program.get_instruction(&self.position) {
            None => false,
            Some(inst) => match inst.operation {
                AheuiOperation::Push => match inst.argument {
                    AheuiArgument::AsInt => true,
                    AheuiArgument::AsChar => true,
                    _ => false,
                },
                _ => false,
            },
        }
    }
}

/// Whether a value lies in the machine's integer range.
pub open spec fn in_isize_range(v: int) -> bool {
    isize::MIN <= v <= isize::MAX
}

/// Whether a value is a Unicode scalar value: a code point that is not a
/// surrogate.
pub open spec fn is_scalar_value(v: int) -> bool {
    (0 <= v < 0xD800) || (0xE000 <= v <= 0x10FFFF)
}

/// The scalar value of a character.
pub open spec fn char_code(c: char) -> int {
    c as int
}

/// The character with the given scalar value.
pub open spec fn char_of(u: int) -> char {
    choose|c: char| char_code(c) == u
}

/// The view of the line handed to `step`, if one was handed.
pub open spec fn input_view(i: Option<&str>) -> Option<Seq<char>> {
    match i {
        Some(s) => Some(s@),
        None => None,
    }
}

/// What one step does at a live machine's current cell: the machine after
/// the step and either the text written to output or the error reported.
pub open spec fn step_dispatch(
    m: MachineModel,
    inst: AheuiInstruction,
    input: Option<Seq<char>>,
) -> (MachineModel, Result<Seq<char>, ErrorModel>) {
    let idx = m.storage_index;
    let st = m.storages[idx];
    let q = is_queue_index(idx);
    let empty_out = Ok::<Seq<char>, ErrorModel>(Seq::empty());
    match inst.operation {
        AheuiOperation::Null => (machine_after_move(m, inst.direction), empty_out),
        AheuiOperation::Terminate => (
            MachineModel { terminated: true, ..m },
            Ok(seq!['\n']),
        ),
        AheuiOperation::Add
        | AheuiOperation::Multiply
        | AheuiOperation::Divide
        | AheuiOperation::Subtract
        | AheuiOperation::Modulo => {
            if st.len() < 2 {
                (machine_after_reflect(m, inst.direction), empty_out)
            } else {
                let a = st[0];
                let b = st[1];
                match inst.operation.arithmetic_spec(b, a) {
                    Some(v) => (
                        machine_after_move(
                            MachineModel {
                                storages: m.storages.update(
                                    idx,
                                    storage_push(st.skip(2), q, v),
                                ),
                                ..m
                            },
                            inst.direction,
                        ),
                        empty_out,
                    ),
                    None => (
                        MachineModel {
                            terminated: true,
                            storages: m.storages.update(idx, st.skip(2)),
                            ..m
                        },
                        Err(ErrorModel::Arithmetic(a, b)),
                    ),
                }
            }
        },
        AheuiOperation::Pop => {
            if st.len() == 0 {
                (machine_after_reflect(m, inst.direction), empty_out)
            } else {
                let v = st[0];
                let popped = MachineModel {
                    storages: m.storages.update(idx, st.drop_first()),
                    ..m
                };
                match inst.argument {
                    AheuiArgument::AsInt => (
                        machine_after_move(popped, inst.direction),
                        Ok(decimal_rep(v as int)),
                    ),
                    AheuiArgument::AsChar => {
                        if is_scalar_value(v as int) {
                            (
                                machine_after_move(popped, inst.direction),
                                Ok(seq![char_of(v as int)]),
                            )
                        } else {
                            (
                                MachineModel { terminated: true, ..popped },
                                Err(ErrorModel::InvalidChar(v)),
                            )
                        }
                    },
                    _ => (machine_after_move(popped, inst.direction), empty_out),
                }
            }
        },
        AheuiOperation::Push => {
            match inst.argument {
                AheuiArgument::Number(n) => (
                    machine_after_move(
                        MachineModel {
                            storages: m.storages.update(
                                idx,
                                storage_push(st, q, n as isize),
                            ),
                            ..m
                        },
                        inst.direction,
                    ),
                    empty_out,
                ),
                AheuiArgument::AsInt => {
                    match input {
                        None => (m, Err(ErrorModel::Input)),
                        Some(line) => {
                            let p = parsed_int(line);
                            if p.is_some() && in_isize_range(p.unwrap()) {
                                (
                                    machine_after_move(
                                        MachineModel {
                                            storages: m.storages.update(
                                                idx,
                                                storage_push(st, q, p.unwrap() as isize),
                                            ),
                                            ..m
                                        },
                                        inst.direction,
                                    ),
                                    empty_out,
                                )
                            } else {
                                (
                                    machine_after_reflect(m, inst.direction),
                                    Err(ErrorModel::InvalidNumber(line)),
                                )
                            }
                        },
                    }
                },
                AheuiArgument::AsChar => {
                    match input {
                        None => (m, Err(ErrorModel::Input)),
                        Some(line) => {
                            if trim_ws(line).len() == 0 {
                                (
                                    machine_after_reflect(m, inst.direction),
                                    Err(ErrorModel::EmptyInput),
                                )
                            } else {
                                (
                                    machine_after_move(
                                        MachineModel {
                                            storages: m.storages.update(
                                                idx,
                                                storage_push(
                                                    st,
                                                    q,
                                                    (trim_ws(line).first() as int) as isize,
                                                ),
                                            ),
                                            ..m
                                        },
                                        inst.direction,
                                    ),
                                    empty_out,
                                )
                            }
                        },
                    }
                },
                _ => (machine_after_reflect(m, inst.direction), empty_out),
            }
        },
        AheuiOperation::Duplicate => {
            if st.len() == 0 {
                (machine_after_reflect(m, inst.direction), empty_out)
            } else {
                (
                    machine_after_move(
                        MachineModel {
                            storages: m.storages.update(idx, seq![st[0]] + st),
                            ..m
                        },
                        inst.direction,
                    ),
                    empty_out,
                )
            }
        },
        AheuiOperation::Swap => {
            if st.len() < 2 {
                (machine_after_reflect(m, inst.direction), empty_out)
            } else {
                (
                    machine_after_move(
                        MachineModel {
                            storages: m.storages.update(
                                idx,
                                st.update(0, st[1]).update(1, st[0]),
                            ),
                            ..m
                        },
                        inst.direction,
                    ),
                    empty_out,
                )
            }
        },
        AheuiOperation::StoreSelect => {
            match inst.argument {
                AheuiArgument::Storage(k) => (
                    machine_after_move(
                        MachineModel { storage_index: k as int, ..m },
                        inst.direction,
                    ),
                    empty_out,
                ),
                _ => (machine_after_reflect(m, inst.direction), empty_out),
            }
        },
        AheuiOperation::StoreTransfer => {
            match inst.argument {
                AheuiArgument::Storage(dest) => {
                    if st.len() == 0 {
                        (machine_after_reflect(m, inst.direction), empty_out)
                    } else {
                        let after_pop = m.storages.update(idx, st.drop_first());
                        let stor2 = after_pop.update(
                            dest as int,
                            storage_push(
                                after_pop[dest as int],
                                is_queue_index(dest as int),
                                st[0],
                            ),
                        );
                        (
                            machine_after_move(
                                MachineModel { storages: stor2, ..m },
                                inst.direction,
                            ),
                            empty_out,
                        )
                    }
                },
                _ => (machine_after_reflect(m, inst.direction), empty_out),
            }
        },
        AheuiOperation::Compare => {
            if st.len() < 2 {
                (machine_after_reflect(m, inst.direction), empty_out)
            } else {
                let v1 = st[0];
                let v2 = st[1];
                let flag: isize = if v2 <= v1 {
                    1
                } else {
                    0
                };
                (
                    machine_after_move(
                        MachineModel {
                            storages: m.storages.update(
                                idx,
                                storage_push(st.skip(2), q, flag),
                            ),
                            ..m
                        },
                        inst.direction,
                    ),
                    empty_out,
                )
            }
        },
        AheuiOperation::Fork => {
            if st.len() == 0 {
                (machine_after_reflect(m, inst.direction), empty_out)
            } else {
                let popped = MachineModel {
                    storages: m.storages.update(idx, st.drop_first()),
                    ..m
                };
                if st[0] != 0 {
                    (machine_after_move(popped, inst.direction), empty_out)
                } else {
                    (machine_after_reflect(popped, inst.direction), empty_out)
                }
            }
        },
    }
}

/// What one step does: an error without state change after termination,
/// termination on an empty grid, otherwise the current cell's operation.
pub open spec fn step_spec(m: MachineModel, input: Option<Seq<char>>) -> (
    MachineModel,
    Result<Seq<char>, ErrorModel>,
) {
    if m.terminated {
        (m, Err(ErrorModel::Terminated))
    } else if !(0 <= m.y < m.height && 0 <= m.x < m.width) {
        (
            MachineModel { terminated: true, ..m },
            Err(ErrorModel::InstructionNotFound),
        )
    } else {
        step_dispatch(m, m.grid[m.y][m.x], input)
    }
}

/// Whether the machine is about to execute a push-from-input instruction, so
/// that `step` will consume the line handed to it.
pub open spec fn wants_input(m: MachineModel) -> bool {
    &&& !m.terminated
    &&& 0 <= m.y < m.height
    &&& 0 <= m.x < m.width
    &&& m.grid[m.y][m.x].operation == AheuiOperation::Push
    &&& (m.grid[m.y][m.x].argument == AheuiArgument::AsInt || m.grid[m.y][m.x].argument
        == AheuiArgument::AsChar)
}

impl AheuiState {
    /// Bounces the pointer back: mirrors the machine's direction and the
    /// cell's direction along both axes, then moves as usual.
    fn reflect_step(&mut self, inst_direction: AheuiDirection)
        requires
            old(self).wf(),
            old(self).program.size.x >= 1,
            old(self).program.size.y >= 1,
        ensures
            final(self)@ == machine_after_reflect(old(self)@, inst_direction),
            final(self).wf(),
            final(self).program == old(self).program,
            final(self).storages == old(self).storages,
            final(self).terminated == old(self).terminated,
            final(self).storage_index == old(self).storage_index,
    {
        self.direction.reflect_xy();
        let mut inst_dir = inst_direction;
        inst_dir.reflect_xy();
        self.step_coordinate(inst_dir);
        proof {
            assert(final(self)@ =~= machine_after_reflect(old(self)@, inst_direction));
        }
    }

    /// Executes one cell: fails fast after termination, terminates on an
    /// empty grid, and otherwise performs the cell's operation, moving the
    /// pointer forward on success and reflecting it on failure. Returns the
    /// text written to output, or the error reported. `input` is the line
    /// that a push-from-input instruction consumes; hand one over whenever
    /// `needs_input` says so.
    #[verifier::rlimit(100)]
    pub fn step(&mut self, input: Option<&str>) -> (r: Result<String, AheuiError>)
        requires
            old(self).wf(),
        ensures
            final(self).wf(),
            final(self).program == old(self).program,
            final(self)@ == step_spec(old(self)@, input_view(input)).0,
            (match r {
                Ok(out) => step_spec(old(self)@, input_view(input)).1 == Ok::<
                    Seq<char>,
                    ErrorModel,
                >(out@),
                Err(e) => step_spec(old(self)@, input_view(input)).1 == Err::<
                    Seq<char>,
                    ErrorModel,
                >(e@),
            }),
    {
        if self.terminated {
            proof {
                assert(final(self)@ =~~= step_spec(old(self)@, input_view(input)).0);
            }
            return Err(AheuiError::TerminatedError);
        }
        let inst: AheuiInstruction = match self.program.get_instruction(&self.position) {
            Some(op) => *op,
            None => {
                self.terminated = true;
                proof {
                    assert(final(self)@ =~~= step_spec(old(self)@, input_view(input)).0);
                }
                return Err(AheuiError::InstructionNotFoundError);
            },
        };
        proof {
            assert(old(self)@.grid[self.position.y as int] == self.program.program@[self.position.y as int]@);
            assert(inst == old(self)@.grid[old(self)@.y][old(self)@.x]);
            assert(instruction_valid(inst));
        }
        let ghost spec_post = step_spec(old(self)@, input_view(input)).0;
        let ghost spec_out = step_spec(old(self)@, input_view(input)).1;
        let ghost pre_m = old(self)@;
        let mut success = false;
        let mut output = String::new();
        let idx = self.storage_index;
        let ghost i0 = idx as int;
        let ghost st0 = pre_m.storages[i0];
        let ghost q0 = is_queue_index(i0);
        let ghost mut mid: MachineModel = pre_m;
        proof {
            assert(old(self).storages@[i0]@ == st0);
            assert(old(self).storages@[i0].is_queue() == q0);
        }
        match inst.operation {
            AheuiOperation::Null => {
                success = true;
            },
            AheuiOperation::Terminate => {
                self.terminated = true;
                let out = String::from_str("\n");
                proof {
                    reveal_strlit("\n");
                    assert(out@ =~= seq!['\n']);
                    assert(final(self)@ =~~= spec_post);
                }
                return Ok(out);
            },
            AheuiOperation::Add
            | AheuiOperation::Multiply
            | AheuiOperation::Divide
            | AheuiOperation::Subtract
            | AheuiOperation::Modulo => {
                let current_storage = &mut self.storages[idx];
                if current_storage.len() >= 2 {
                    let a = current_storage.pop().unwrap();
                    let b = current_storage.pop().unwrap();
                    match inst.operation.arithmetic_operation(b, a) {
                        Some(a_b) => {
                            current_storage.push(a_b);
                            proof {
                                assert(current_storage@ =~= storage_push(st0.skip(2), q0, a_b));
                            }
                            success = true;
                            proof {
                                mid = MachineModel {
                                    storages: pre_m.storages.update(
                                        i0,
                                        storage_push(st0.skip(2), q0, a_b),
                                    ),
                                    ..pre_m
                                };
                                assert(self@ =~~= mid);
                            }
                        },
                        None => {
                            self.terminated = true;
                            proof {
                                assert(self.storages@[i0]@ =~= st0.skip(2));
                                assert(final(self)@ =~~= spec_post);
                            }
                            return Err(AheuiError::ArithmeticError(a, b));
                        },
                    };
                } else {
                    proof {
                        assert(self@ =~~= pre_m);
                    }
                }
            },
            AheuiOperation::Pop => {
                let current_storage = &mut self.storages[idx];
                let popped_value = current_storage.pop();
                if let Some(num) = popped_value {
                    proof {
                        mid = MachineModel {
                            storages: pre_m.storages.update(i0, st0.drop_first()),
                            ..pre_m
                        };
                        assert(self@ =~~= mid);
                    }
                    match inst.argument {
                        AheuiArgument::AsInt => {
                            output = crate::text::isize_to_string(num);
                            success = true;
                        },
                        AheuiArgument::AsChar => {
                            let valid = num >= 0 && num <= 0x10FFFF;
                            let decoded = if valid {
                                char::from_u32(num as u32)
                            } else {
                                None
                            };
                            match decoded {
                                Some(num_char) => {
                                    let mut s = String::new();
                                    crate::text::push_char(&mut s, num_char);
                                    output = s;
                                    proof {
                                        assert((num as u32) as int == num as int);
                                        assert(char_code(num_char) == num as int);
                                        assert(exists|c: char| char_code(c) == num as int);
                                        assert(char_code(char_of(num as int)) == num as int);
                                        assert(output@ =~= seq![char_of(num as int)]);
                                    }
                                    success = true;
                                },
                                None => {
                                    self.terminated = true;
                                    proof {
                                        assert(!is_scalar_value(num as int));
                                        assert(final(self)@ =~~= spec_post);
                                    }
                                    return Err(AheuiError::InvalidCharError(num));
                                },
                            };
                        },
                        _ => {
                            success = true;
                        },
                    };
                } else {
                    proof {
                        assert(self@ =~~= pre_m);
                    }
                }
            },
            AheuiOperation::Push => {
                match inst.argument {
                    AheuiArgument::Number(n) => {
                        let current_storage = &mut self.storages[idx];
                        current_storage.push(n as isize);
                        success = true;
                        proof {
                            mid = MachineModel {
                                storages: pre_m.storages.update(
                                    i0,
                                    storage_push(st0, q0, n as isize),
                                ),
                                ..pre_m
                            };
                            assert(self@ =~~= mid);
                        }
                    },
                    AheuiArgument::AsInt => {
                        match input {
                            None => {
                                proof {
                                    assert(final(self)@ =~~= spec_post);
                                }
                                return Err(AheuiError::InputError);
                            },
                            Some(line) => {
                                match crate::text::parse_isize(line) {
                                    Some(num) => {
                                        let current_storage = &mut self.storages[idx];
                                        current_storage.push(num);
                                        success = true;
                                        proof {
                                            assert(num as int == parsed_int(line@).unwrap());
                                            mid = MachineModel {
                                                storages: pre_m.storages.update(
                                                    i0,
                                                    storage_push(st0, q0, num),
                                                ),
                                                ..pre_m
                                            };
                                            assert(self@ =~~= mid);
                                        }
                                    },
                                    None => {
                                        self.reflect_step(inst.direction);
                                        proof {
                                            assert(final(self)@ =~~= spec_post);
                                        }
                                        return Err(
                                            AheuiError::InvalidNumberError(
                                                String::from_str(line),
                                            ),
                                        );
                                    },
                                }
                            },
                        }
                    },
                    AheuiArgument::AsChar => {
                        match input {
                            None => {
                                proof {
                                    assert(final(self)@ =~~= spec_post);
                                }
                                return Err(AheuiError::InputError);
                            },
                            Some(line) => {
                                match crate::text::first_trimmed_char(line) {
                                    Some(first_char) => {
                                        let code_val = char_to_isize(first_char);
                                        let current_storage = &mut self.storages[idx];
                                        current_storage.push(code_val);
                                        success = true;
                                        proof {
                                            assert(first_char == trim_ws(line@).first());
                                            assert(code_val as int == char_code(first_char));
                                            mid = MachineModel {
                                                storages: pre_m.storages.update(
                                                    i0,
                                                    storage_push(
                                                        st0,
                                                        q0,
                                                        (trim_ws(line@).first() as int) as isize,
                                                    ),
                                                ),
                                                ..pre_m
                                            };
                                            assert(self@ =~~= mid);
                                        }
                                    },
                                    None => {
                                        self.reflect_step(inst.direction);
                                        proof {
                                            assert(final(self)@ =~~= spec_post);
                                        }
                                        return Err(AheuiError::EmptyInputError);
                                    },
                                }
                            },
                        }
                    },
                    _ => {},
                };
            },
            AheuiOperation::Duplicate => {
                let current_storage = &mut self.storages[idx];
                match current_storage.duplicate() {
                    Ok(_) => {
                        success = true;
                        proof {
                            mid = MachineModel {
                                storages: pre_m.storages.update(i0, seq![st0[0]] + st0),
                                ..pre_m
                            };
                            assert(self@ =~~= mid);
                        }
                    },
                    Err(_) => {
                        proof {
                            assert(self@ =~~= pre_m);
                        }
                    },
                };
            },
            AheuiOperation::Swap => {
                let current_storage = &mut self.storages[idx];
                match current_storage.swap() {
                    Ok(_) => {
                        success = true;
                        proof {
                            mid = MachineModel {
                                storages: pre_m.storages.update(
                                    i0,
                                    st0.update(0, st0[1]).update(1, st0[0]),
                                ),
                                ..pre_m
                            };
                            assert(self@ =~~= mid);
                        }
                    },
                    Err(_) => {
                        proof {
                            assert(self@ =~~= pre_m);
                        }
                    },
                };
            },
            AheuiOperation::StoreSelect => {
                if let AheuiArgument::Storage(n) = inst.argument {
                    self.storage_index = n;
                    success = true;
                    proof {
                        mid = MachineModel { storage_index: n as int, ..pre_m };
                        assert(self@ =~~= mid);
                    }
                };
            },
            AheuiOperation::StoreTransfer => {
                if let AheuiArgument::Storage(dest) = inst.argument {
                    let current_storage = &mut self.storages[idx];
                    let current_storage_val = current_storage.pop();
                    if let Some(current_num) = current_storage_val {
                        let dest_storage = &mut self.storages[dest];
                        dest_storage.push(current_num);
                        success = true;
                        proof {
                            let after_pop = pre_m.storages.update(i0, st0.drop_first());
                            mid = MachineModel {
                                storages: after_pop.update(
                                    dest as int,
                                    storage_push(
                                        after_pop[dest as int],
                                        is_queue_index(dest as int),
                                        st0[0],
                                    ),
                                ),
                                ..pre_m
                            };
                            assert(self@ =~~= mid);
                        }
                    } else {
                        proof {
                            assert(self@ =~~= pre_m);
                        }
                    };
                };
            },
            AheuiOperation::Compare => {
                let current_storage = &mut self.storages[idx];
                if current_storage.len() >= 2 {
                    let value1 = current_storage.pop().unwrap();
                    let value2 = current_storage.pop().unwrap();
                    let flag: isize = if value2 <= value1 {
                        1
                    } else {
                        0
                    };
                    current_storage.push(flag);
                    proof {
                        assert(current_storage@ =~= storage_push(st0.skip(2), q0, flag));
                    }
                    success = true;
                    proof {
                        mid = MachineModel {
                            storages: pre_m.storages.update(
                                i0,
                                storage_push(st0.skip(2), q0, flag),
                            ),
                            ..pre_m
                        };
                        assert(self@ =~~= mid);
                    }
                } else {
                    proof {
                        assert(self@ =~~= pre_m);
                    }
                }
            },
            AheuiOperation::Fork => {
                let current_storage = &mut self.storages[idx];
                let popped_value = current_storage.pop();
                if let Some(num) = popped_value {
                    success = num != 0;
                    proof {
                        mid = MachineModel {
                            storages: pre_m.storages.update(i0, st0.drop_first()),
                            ..pre_m
                        };
                        assert(self@ =~~= mid);
                    }
                } else {
                    proof {
                        assert(self@ =~~= pre_m);
                    }
                };
            },
        };
        proof {
            assert(self@ == mid);
            assert forall|k: int|
                0 <= k < 28 implies ((#[trigger] self.storages@[k]).is_queue() <==> is_queue_index(
                k,
            )) by {}
        }
        if success {
            self.step_coordinate(inst.direction);
            proof {
                assert(final(self)@ == machine_after_move(mid, inst.direction));
            }
        } else {
            self.reflect_step(inst.direction);
            proof {
                assert(final(self)@ == machine_after_reflect(mid, inst.direction));
            }
        }
        proof {
            assert(final(self)@ == spec_post);
            assert(spec_out matches Ok(o) && o =~= output@);
        }
        Ok(output)
    }
}


/// The machine and the collected output after as many as `fuel` steps with
/// no input available: stepping stops at termination or when the fuel is
/// spent; error steps contribute no output.
pub open spec fn run_spec(m: MachineModel, fuel: nat) -> (MachineModel, Seq<char>)
    decreases fuel,
{
    if m.terminated || fuel == 0 {
        (m, Seq::empty())
    } else {
        let stepped = step_spec(m, None);
        let out = match stepped.1 {
            Ok(o) => o,
            Err(_) => Seq::empty(),
        };
        let rest = run_spec(stepped.0, (fuel - 1) as nat);
        (rest.0, out + rest.1)
    }
}

impl AheuiState {
    /// Steps the machine until it terminates or `fuel` steps have run,
    /// providing no input; returns everything written to output. Errors are
    /// recoverable or terminate the machine, so the loop goes on past them.
    pub fn run(&mut self, fuel: usize) -> (out: String)
        requires
            old(self).wf(),
        ensures
            final(self).wf(),
            final(self)@ == run_spec(old(self)@, fuel as nat).0,
            out@ == run_spec(old(self)@, fuel as nat).1,
    {
        let mut out = String::new();
        let mut remaining: usize = fuel;
        while remaining > 0 && !self.terminated
            invariant
                self.wf(),
                remaining <= fuel,
                run_spec(old(self)@, fuel as nat).0 == run_spec(self@, remaining as nat).0,
                run_spec(old(self)@, fuel as nat).1 == out@ + run_spec(self@, remaining as nat).1,
            decreases remaining,
        {
            let ghost loop_pre = self@;
            let ghost out_pre = out@;
            match self.step(None) {
                Ok(s) => {
                    out.append(s.as_str());
                },
                Err(_) => {},
            };
            remaining = remaining - 1;
            proof {
                let stepped = step_spec(loop_pre, None);
                let o = match stepped.1 {
                    Ok(o) => o,
                    Err(_) => Seq::<char>::empty(),
                };
                assert(out@ =~= out_pre + o);
                assert((out_pre + o) + run_spec(self@, remaining as nat).1 =~= out_pre + (o
                    + run_spec(self@, remaining as nat).1));
            }
        }
        proof {
            assert(run_spec(self@, remaining as nat).1 =~= Seq::<char>::empty());
            assert(out@ + Seq::<char>::empty() =~= out@);
        }
        out
    }
}

fn char_to_isize(c: char) -> (r: isize)
    ensures
        r as int == char_code(c),
{
    let u = c as u32;
    proof {
        assert(u as int == c as int);
    }
    u as isize
}

/// Whether an operation is one of the five arithmetic operations.
pub open spec fn is_arithmetic(op: AheuiOperation) -> bool {
    match op {
        AheuiOperation::Add => true,
        AheuiOperation::Multiply => true,
        AheuiOperation::Divide => true,
        AheuiOperation::Subtract => true,
        AheuiOperation::Modulo => true,
        _ => false,
    }
}

/// The pointer of a well-formed machine is inside the grid, taking an empty
/// grid's range as the single cell (0, 0).
pub proof fn lemma_pointer_in_bounds(s: AheuiState)
    requires
        s.wf(),
    ensures
        0 <= s@.x < max1(s@.width),
        0 <= s@.y < max1(s@.height),
{
}

/// A well-formed machine has 28 storages; those at 21 and 27 are queues, all
/// others stacks.
pub proof fn lemma_storage_bank(s: AheuiState)
    requires
        s.wf(),
    ensures
        s.storages@.len() == 28,
        s@.storages.len() == 28,
        forall|i: int|
            0 <= i < 28 ==> ((#[trigger] s.storages@[i]).is_queue() <==> (i == 21 || i == 27)),
{
}

/// Every cell of a well-formed grid holds a valid instruction, and looking a
/// cell up inside the grid's bounds always finds one.
pub proof fn lemma_grid_cells_valid(p: AheuiProgram, x: int, y: int)
    requires
        p.wf(),
        0 <= x < p.size.x,
        0 <= y < p.size.y,
    ensures
        instruction_valid(p.program@[y]@[x]),
        p.program@[y]@.len() > x,
{
}

/// Executing "push a; push b; op" on a stack yields `a` ⊙ `b`: the value
/// pushed first is the left operand of the arithmetic.
pub proof fn lemma_arithmetic_operand_order(
    m: MachineModel,
    input: Option<Seq<char>>,
    a: isize,
    b: isize,
    rest: Seq<isize>,
)
    requires
        model_wf(m),
        !m.terminated,
        0 <= m.y < m.height,
        0 <= m.x < m.width,
        is_arithmetic(m.grid[m.y][m.x].operation),
        !is_queue_index(m.storage_index),
        m.storages[m.storage_index] == storage_push(storage_push(rest, false, a), false, b),
        m.grid[m.y][m.x].operation.arithmetic_spec(a, b).is_some(),
    ensures
        step_spec(m, input).1 == Ok::<Seq<char>, ErrorModel>(Seq::empty()),
        step_spec(m, input).0.storages[m.storage_index].first()
            == m.grid[m.y][m.x].operation.arithmetic_spec(a, b).unwrap(),
{
    let st = m.storages[m.storage_index];
    assert(st =~= seq![b, a] + rest);
    assert(st[0] == b && st[1] == a);
    let v = m.grid[m.y][m.x].operation.arithmetic_spec(a, b).unwrap();
    assert(step_spec(m, input).0.storages[m.storage_index] == storage_push(
        st.skip(2),
        false,
        v,
    ));
}

/// Compare pushes 1 exactly when the value under the top is at most the top
/// value, else 0.
pub proof fn lemma_compare_result(m: MachineModel, input: Option<Seq<char>>)
    requires
        model_wf(m),
        !m.terminated,
        0 <= m.y < m.height,
        0 <= m.x < m.width,
        m.grid[m.y][m.x].operation == AheuiOperation::Compare,
        !is_queue_index(m.storage_index),
        m.storages[m.storage_index].len() >= 2,
    ensures
        step_spec(m, input).0.storages[m.storage_index].first() == (if m.storages[m.storage_index][1]
            <= m.storages[m.storage_index][0] {
            1isize
        } else {
            0isize
        }),
{
}

/// Fast movement to the right from the last column wraps through column 0 and
/// lands on column 1.
pub proof fn lemma_fast_right_wrap(w: int)
    requires
        w >= 2,
    ensures
        moved_coord(w - 1, w, true, true) == 1,
{
}

/// Fast movement to the left from column 0 wraps to the second-to-last
/// column.
pub proof fn lemma_fast_left_wrap(w: int)
    requires
        w >= 2,
    ensures
        moved_coord(0, w, false, true) == w - 2,
{
}

/// A cell decoded from a non-Hangul character leaves the direction unchanged
/// and only moves the pointer one step in the current direction.
pub proof fn lemma_null_cell_inert(m: MachineModel, input: Option<Seq<char>>)
    requires
        model_wf(m),
        !m.terminated,
        0 <= m.y < m.height,
        0 <= m.x < m.width,
        m.grid[m.y][m.x] == crate::instruction::null_instruction(),
    ensures
        step_spec(m, input).0 == machine_after_move(m, AheuiDirection::Null),
        step_spec(m, input).0.direction == m.direction,
        step_spec(m, input).0.storages == m.storages,
        step_spec(m, input).0.terminated == m.terminated,
        step_spec(m, input).1 == Ok::<Seq<char>, ErrorModel>(Seq::empty()),
{
}

/// After termination a step reports the termination error and changes
/// nothing.
pub proof fn lemma_step_after_termination(m: MachineModel, input: Option<Seq<char>>)
    requires
        m.terminated,
    ensures
        step_spec(m, input).0 == m,
        step_spec(m, input).1 == Err::<Seq<char>, ErrorModel>(ErrorModel::Terminated),
{
}

} // verus!
