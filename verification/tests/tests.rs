use libaheui::hangul::HangulCoda;
use libaheui::hangul::HangulOnset;
use libaheui::hangul::HangulSyllable;
use libaheui::hangul::HangulVowel;
use libaheui::instruction::AheuiArgument;
use libaheui::instruction::AheuiDirection;
use libaheui::instruction::AheuiInstruction;
use libaheui::instruction::AheuiOperation;
use libaheui::component::AheuiCoordinates;
use libaheui::component::AheuiError;
use libaheui::component::AheuiProgram;
use libaheui::component::AheuiStorage;
use libaheui::AheuiState;

#[test]
fn test_hangul_creation() {
    let han = '한';
    let han_struct = HangulSyllable {
        onset: HangulOnset::Hieut,
        vowel: HangulVowel::A,
        coda: HangulCoda::Nieun,
    };

    let han_constructed = HangulSyllable::from_char(han);

    assert!(han_constructed.is_some());
    assert_eq!(han_constructed.unwrap(), han_struct);
}

#[test]
fn test_invalid_hangul() {
    let fake = 'k';
    let han_constructed = HangulSyllable::from_char(fake);

    assert_eq!(han_constructed, None);
}

#[test]
fn test_basic_operator() {
    let mah = '맣';
    let deol = '덜';
    let beugs = '씋';

    let mah_operator = AheuiInstruction::from_char(mah);
    let deol_operator = AheuiInstruction::from_char(deol);
    let beugs_operator = AheuiInstruction::from_char(beugs);
    assert_eq!(mah_operator.operation, AheuiOperation::Pop);
    assert_eq!(mah_operator.argument, AheuiArgument::AsChar);
    assert_eq!(deol_operator.operation, AheuiOperation::Add);
    assert_eq!(deol_operator.direction, AheuiDirection::Left(false));
    assert_eq!(beugs_operator.operation, AheuiOperation::StoreTransfer);
    assert_eq!(beugs_operator.argument, AheuiArgument::Storage(27));
    assert_eq!(beugs_operator.direction, AheuiDirection::ReflectY);
}

#[test]
fn test_single_op_program() {
    let basic_program = "발희";

    let mut program = AheuiState::init(&basic_program);
    assert!(!program.terminated);
    assert_eq!(program.position, AheuiCoordinates { x: 0, y: 0 });

    program.step(None).unwrap();
    assert_eq!(program.position, AheuiCoordinates { x: 1, y: 0 });
    assert_eq!(program.storages[0].peek(), Some(&5));

    let out = program.step(None).unwrap();
    assert_eq!(out, "\n");
    assert!(program.terminated);
}

#[test]
fn test_pa() {
    let pa = "발반파희";

    let program = AheuiState::init(&pa);
    assert_eq!(program.program.size, AheuiCoordinates { x: 4, y: 1 });
    let inst = program.program.get_instruction(&program.position).unwrap();
    assert_eq!(inst.character, '발');
    assert_eq!(program.storages[program.storage_index].len(), 0);
}

#[test]
fn test_syllable_round_trip() {
    for u in 0xAC00..=0xD7A3u32 {
        let c = char::from_u32(u).unwrap();
        let s = HangulSyllable::from_char(c).unwrap();
        let composed = 0xAC00 + 588 * (s.onset as u32) + 28 * (s.vowel as u32) + (s.coda as u32);
        assert_eq!(composed, u);
    }
}

#[test]
fn test_stack_push_pop() {
    let mut s = AheuiStorage::new(false);
    s.push(5);
    assert_eq!(s.len(), 1);
    assert_eq!(s.pop(), Some(5));
    assert_eq!(s.pop(), None);
}

#[test]
fn test_queue_order() {
    let mut q = AheuiStorage::new(true);
    q.push(1);
    q.push(2);
    q.push(3);
    assert_eq!(q.pop(), Some(1));
    assert_eq!(q.pop(), Some(2));
    assert_eq!(q.pop(), Some(3));
    assert_eq!(q.pop(), None);
}

#[test]
fn test_duplicate_then_pop_unchanged() {
    let mut s = AheuiStorage::new(false);
    s.push(7);
    s.push(8);
    s.duplicate().unwrap();
    assert_eq!(s.pop(), Some(8));
    assert_eq!(s.len(), 2);
    assert_eq!(s.pop(), Some(8));
    assert_eq!(s.pop(), Some(7));
}

#[test]
fn test_duplicate_on_queue_prepends() {
    let mut q = AheuiStorage::new(true);
    q.push(1);
    q.push(2);
    q.duplicate().unwrap();
    assert_eq!(q.pop(), Some(1));
    assert_eq!(q.pop(), Some(1));
    assert_eq!(q.pop(), Some(2));
}

#[test]
fn test_swap_exchanges_heads() {
    let mut s = AheuiStorage::new(false);
    s.push(2);
    s.push(3);
    s.swap().unwrap();
    assert_eq!(s.pop(), Some(2));
    assert_eq!(s.pop(), Some(3));
    let mut t = AheuiStorage::new(false);
    t.push(1);
    assert!(matches!(t.swap(), Err(AheuiError::StorageSizeError)));
    assert_eq!(t.len(), 1);
}

#[test]
fn test_arithmetic_operation() {
    assert_eq!(AheuiOperation::Add.arithmetic_operation(2, 3), Some(5));
    assert_eq!(AheuiOperation::Subtract.arithmetic_operation(2, 4), Some(-2));
    assert_eq!(AheuiOperation::Multiply.arithmetic_operation(6, 7), Some(42));
    assert_eq!(AheuiOperation::Divide.arithmetic_operation(7, 2), Some(3));
    assert_eq!(AheuiOperation::Modulo.arithmetic_operation(7, 2), Some(1));
    assert_eq!(AheuiOperation::Divide.arithmetic_operation(6, 0), None);
    assert_eq!(AheuiOperation::Subtract.arithmetic_operation(isize::MIN, 1), None);
    assert_eq!(AheuiOperation::Null.arithmetic_operation(1, 1), None);
}

#[test]
fn test_reflections() {
    let mut d = AheuiDirection::Left(true);
    d.reflect_x();
    assert_eq!(d, AheuiDirection::Right(true));
    d.reflect_y();
    assert_eq!(d, AheuiDirection::Right(true));
    let mut u = AheuiDirection::Up(false);
    u.reflect_y();
    assert_eq!(u, AheuiDirection::Down(false));
    u.reflect_xy();
    assert_eq!(u, AheuiDirection::Up(false));
}

#[test]
fn test_push_literal_table() {
    // one program per literal in {0,2,3,4,5,6,7,8,9}
    let cases = [
        ("바망희", "0\n"),
        ("박망희", "2\n"),
        ("받망희", "3\n"),
        ("밤망희", "4\n"),
        ("발망희", "5\n"),
        ("밦망희", "6\n"),
        ("밝망희", "7\n"),
        ("밣망희", "8\n"),
        ("밞망희", "9\n"),
    ];
    for (src, expected) in cases {
        let mut m = AheuiState::init(src);
        let out = m.run(100);
        assert_eq!(out, *expected);
        assert!(m.terminated);
    }
}

#[test]
fn test_immediate_terminate() {
    let mut m = AheuiState::init("희");
    let out = m.run(10);
    assert_eq!(out, "\n");
    assert!(m.terminated);
}

#[test]
fn test_push_two_output() {
    let mut m = AheuiState::init("반망희");
    let out = m.run(100);
    assert_eq!(out, "2\n");
}

#[test]
fn test_add_and_output() {
    let mut m = AheuiState::init("밦밦다망희");
    let out = m.run(100);
    assert_eq!(out, "12\n");
}

#[test]
fn test_two_row_reflection_and_wrap() {
    // row 1 ends in a trailing space that is trimmed and padded back with a
    // null cell; the fast downward move from the bottom row wraps onto the
    // bottom row again, so the machine keeps pushing without terminating
    let mut m = AheuiState::init("분벋희\n뷸뿌 ");
    let out = m.run(10);
    assert_eq!(out, "");
    assert!(!m.terminated);
    assert_eq!(m.position, AheuiCoordinates { x: 0, y: 1 });
    assert_eq!(m.direction, AheuiDirection::Down(true));
    assert_eq!(m.storages[0].len(), 10);
    assert_eq!(m.storages[0].peek(), Some(&5));
}

#[test]
fn test_division_by_zero_terminates() {
    let mut m = AheuiState::init("밦바나희");
    m.step(None).unwrap();
    m.step(None).unwrap();
    let r = m.step(None);
    assert!(matches!(r, Err(AheuiError::ArithmeticError(0, 6))));
    assert!(m.terminated);
    // the terminate cell was never reached
    assert_eq!(m.position, AheuiCoordinates { x: 2, y: 0 });
    // a step after termination changes nothing and fails fast
    let r2 = m.step(None);
    assert!(matches!(r2, Err(AheuiError::TerminatedError)));
    assert_eq!(m.position, AheuiCoordinates { x: 2, y: 0 });
    assert_eq!(m.storages[0].len(), 0);
}

#[test]
fn test_non_hangul_loops_forever() {
    let mut m = AheuiState::init("abc");
    let out = m.run(50);
    assert_eq!(out, "");
    assert!(!m.terminated);
}

#[test]
fn test_empty_program_instruction_not_found() {
    let mut m = AheuiState::init("");
    assert!(!m.terminated);
    let r = m.step(None);
    assert!(matches!(r, Err(AheuiError::InstructionNotFoundError)));
    assert!(m.terminated);
}

#[test]
fn test_step_after_terminate() {
    let mut m = AheuiState::init("희");
    assert_eq!(m.step(None).unwrap(), "\n");
    assert!(m.terminated);
    let before = (m.position, m.storage_index, m.storages[0].len());
    let r = m.step(None);
    assert!(matches!(r, Err(AheuiError::TerminatedError)));
    let after = (m.position, m.storage_index, m.storages[0].len());
    assert_eq!(before, after);
}

#[test]
fn test_push_from_input() {
    let mut m = AheuiState::init("방망희");
    assert!(m.needs_input());
    assert_eq!(m.step(Some("  42 \n")).unwrap(), "");
    assert!(!m.needs_input());
    assert_eq!(m.step(None).unwrap(), "42");
    assert_eq!(m.step(None).unwrap(), "\n");
    assert!(m.terminated);
}

#[test]
fn test_push_negative_number_output() {
    let mut m = AheuiState::init("방망희");
    assert_eq!(m.step(Some("-37")).unwrap(), "");
    assert_eq!(m.step(None).unwrap(), "-37");
}

#[test]
fn test_invalid_number_reflects() {
    let mut m = AheuiState::init("방망희");
    let r = m.step(Some("abc"));
    match r {
        Err(AheuiError::InvalidNumberError(raw)) => assert_eq!(raw, "abc"),
        _ => panic!("expected a non-number report"),
    }
    assert!(!m.terminated);
    // the failed push reflected the pointer, which wraps to the last cell
    assert_eq!(m.position, AheuiCoordinates { x: 2, y: 0 });
}

#[test]
fn test_missing_input_is_input_error() {
    let mut m = AheuiState::init("방망희");
    let r = m.step(None);
    assert!(matches!(r, Err(AheuiError::InputError)));
    assert_eq!(m.position, AheuiCoordinates { x: 0, y: 0 });
}

#[test]
fn test_push_char_from_input() {
    let mut m = AheuiState::init("밯망희");
    assert!(m.needs_input());
    assert_eq!(m.step(Some(" A rest is discarded\n")).unwrap(), "");
    assert_eq!(m.step(None).unwrap(), "65");
    assert_eq!(m.step(None).unwrap(), "\n");
}

#[test]
fn test_empty_input_reported() {
    let mut m = AheuiState::init("밯망희");
    let r = m.step(Some("   \n"));
    assert!(matches!(r, Err(AheuiError::EmptyInputError)));
    assert!(!m.terminated);
}

#[test]
fn test_pop_as_character_output() {
    // push 44032 (the first Hangul syllable) by computing 8 * 8 * 688? use
    // input instead: read the number, pop as character
    let mut m = AheuiState::init("방맣희");
    assert_eq!(m.step(Some("65")).unwrap(), "");
    assert_eq!(m.step(None).unwrap(), "A");
    assert_eq!(m.step(None).unwrap(), "\n");
}

#[test]
fn test_pop_invalid_character_fatal() {
    let mut m = AheuiState::init("박밤타맣희");
    m.step(None).unwrap();
    m.step(None).unwrap();
    m.step(None).unwrap();
    let r = m.step(None);
    assert!(matches!(r, Err(AheuiError::InvalidCharError(-2))));
    assert!(m.terminated);
}

#[test]
fn test_compare_under_top_le_top() {
    let mut m = AheuiState::init("박밤자망희");
    let out = m.run(100);
    assert_eq!(out, "1\n");
    let mut m2 = AheuiState::init("밤박자망희");
    let out2 = m2.run(100);
    assert_eq!(out2, "0\n");
}

#[test]
fn test_swap_through_machine() {
    let mut m = AheuiState::init("박받파망망희");
    let out = m.run(100);
    assert_eq!(out, "23\n");
}

#[test]
fn test_duplicate_through_machine() {
    let mut m = AheuiState::init("박빠망망희");
    let out = m.run(100);
    assert_eq!(out, "22\n");
}

#[test]
fn test_store_select_and_transfer() {
    let mut m = AheuiState::init("박싹희");
    m.step(None).unwrap();
    m.step(None).unwrap();
    assert_eq!(m.storages[0].len(), 0);
    assert_eq!(m.storages[1].peek(), Some(&2));
    let mut m2 = AheuiState::init("상희");
    m2.step(None).unwrap();
    assert_eq!(m2.storage_index, 21);
}

#[test]
fn test_queue_storage_through_machine() {
    // storage 21 is a queue: values come out in arrival order
    let mut m = AheuiState::init("상박받망망희");
    let out = m.run(100);
    assert_eq!(out, "23\n");
}

#[test]
fn test_fork_passes_on_nonzero() {
    let mut m = AheuiState::init("박박차망희");
    // fork pops one of the twos; the pointer moves on and the other is printed
    let out = m.run(100);
    assert_eq!(out, "2\n");
    assert!(m.terminated);
    assert_eq!(m.storages[0].len(), 0);
}

#[test]
fn test_fork_pops_and_reflects_on_zero() {
    let mut m = AheuiState::init("바차희");
    m.step(None).unwrap();
    m.step(None).unwrap();
    // fork popped the zero and bounced the pointer back
    assert!(!m.terminated);
    assert_eq!(m.storages[0].len(), 0);
    assert_eq!(m.position, AheuiCoordinates { x: 0, y: 0 });
    assert_eq!(m.direction, AheuiDirection::Left(false));
}

#[test]
fn test_fast_movement_wraps() {
    let mut m = AheuiState::init("바바바");
    m.position.x = 2;
    m.step_coordinate(AheuiDirection::Right(true));
    assert_eq!(m.position.x, 1);
    let mut m2 = AheuiState::init("바바바");
    m2.step_coordinate(AheuiDirection::Left(true));
    assert_eq!(m2.position.x, 1);
}

#[test]
fn test_inert_cell_keeps_direction() {
    let mut m = AheuiState::init("zz\nzz");
    m.direction = AheuiDirection::Right(false);
    m.step(None).unwrap();
    assert_eq!(m.direction, AheuiDirection::Right(false));
    assert_eq!(m.position, AheuiCoordinates { x: 1, y: 0 });
}

#[test]
fn test_grid_padding_and_bounds() {
    let p = AheuiProgram::from_str("바다\n바\n");
    assert_eq!(p.size, AheuiCoordinates { x: 2, y: 2 });
    let padded = p
        .get_instruction(&AheuiCoordinates { x: 1, y: 1 })
        .unwrap();
    assert_eq!(padded.operation, AheuiOperation::Null);
    assert_eq!(padded.character, ' ');
    assert!(p.get_instruction(&AheuiCoordinates { x: 2, y: 0 }).is_none());
    assert!(p.get_instruction(&AheuiCoordinates { x: 0, y: 2 }).is_none());
}

#[test]
fn test_crlf_and_trailing_whitespace() {
    let p = AheuiProgram::from_str("바다\r\n바  \r\n");
    assert_eq!(p.size, AheuiCoordinates { x: 2, y: 2 });
    let first = p
        .get_instruction(&AheuiCoordinates { x: 0, y: 1 })
        .unwrap();
    assert_eq!(first.character, '바');
}

#[test]
fn test_error_messages() {
    assert_eq!(
        AheuiError::ArithmeticError(0, 4).message(),
        "fatal: overflow/underflow occurred with arithmetic operation between 0 and 4"
    );
    assert_eq!(
        AheuiError::InvalidCharError(-2).message(),
        "fatal: attempted to pop invalid UTF-8 value -2 to output"
    );
    assert_eq!(
        AheuiError::InvalidNumberError(String::from("x1")).message(),
        "non-number input: x1"
    );
    assert_eq!(AheuiError::EmptyInputError.message(), "no input provided");
}
