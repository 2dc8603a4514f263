use sputnikvm::{ExecutionError, Opcode, M256, PC};

fn word(low: &[u8]) -> [u8; 32] {
    let mut bytes = [0u8; 32];
    bytes[32 - low.len()..].copy_from_slice(low);
    bytes
}

#[test]
fn jumpdest_byte_inside_push_data_is_no_target() {
    let mut pc = PC::new(&[0x60, 0x5b, 0x5b, 0x00]);
    assert_eq!(pc.jump(0), Err(ExecutionError::PCBadJumpDest));
    assert_eq!(pc.jump(1), Err(ExecutionError::PCBadJumpDest));
    assert_eq!(pc.position(), 0);
    assert_eq!(pc.jump(2), Ok(()));
    assert_eq!(pc.position(), 2);
    assert_eq!(pc.jump(3), Err(ExecutionError::PCBadJumpDest));
    assert_eq!(pc.jump(4), Err(ExecutionError::PCOverflow));
    assert_eq!(pc.position(), 2);
}

#[test]
fn read_opcode_walks_to_the_end_of_the_code() {
    let mut pc = PC::new(&[0x00]);
    assert_eq!(pc.read_opcode(), Ok(Opcode::STOP));
    assert_eq!(pc.position(), 1);
    assert_eq!(pc.read_opcode(), Err(ExecutionError::PCOverflow));
    assert_eq!(pc.position(), 1);
}

#[test]
fn read_pads_with_zeros_past_the_end() {
    let mut pc = PC::new(&[0x61, 0x01, 0x02]);
    pc.jump_unchecked(1);
    let value = pc.read(4).unwrap();
    assert_eq!(value.to_be_bytes(), word(&[0x01, 0x02, 0x00, 0x00]));
    assert_eq!(pc.position(), 5);
    assert!(pc.stopped());
}

#[test]
fn read_inside_the_code_is_big_endian() {
    let mut pc = PC::new(&[0x62, 0xab, 0xcd, 0xef, 0x00]);
    assert_eq!(pc.read_opcode(), Ok(Opcode::PUSH(3)));
    let value = pc.read(3).unwrap();
    assert_eq!(value.to_be_bytes(), word(&[0xab, 0xcd, 0xef]));
    assert_eq!(value, M256::from_be_bytes(&[0xab, 0xcd, 0xef]));
    assert_eq!(pc.position(), 4);
    assert_eq!(pc.peek_opcode(), Ok(Opcode::STOP));
}

#[test]
fn read_of_nothing_is_zero_and_stays() {
    let mut pc = PC::new(&[0x01, 0x02]);
    let value = pc.read(0).unwrap();
    assert_eq!(value.to_be_bytes(), [0u8; 32]);
    assert_eq!(pc.position(), 0);
}

#[test]
fn read_wholly_past_the_end_is_zero_and_still_advances() {
    let mut pc = PC::new(&[0x01]);
    pc.jump_unchecked(7);
    let value = pc.read(3).unwrap();
    assert_eq!(value.to_be_bytes(), [0u8; 32]);
    assert_eq!(pc.position(), 10);
}

#[test]
fn read_of_a_full_word() {
    let mut code = vec![0x7f];
    for i in 1..=32u8 {
        code.push(i);
    }
    let mut pc = PC::new(&code);
    assert_eq!(pc.read_opcode(), Ok(Opcode::PUSH(32)));
    let value = pc.read(32).unwrap();
    let mut expected = [0u8; 32];
    for i in 0..32 {
        expected[i] = i as u8 + 1;
    }
    assert_eq!(value.to_be_bytes(), expected);
    assert_eq!(pc.position(), 33);
}

#[test]
fn read_wider_than_a_word_keeps_the_last_32_bytes() {
    let mut code = Vec::new();
    for i in 0..40u8 {
        code.push(i + 1);
    }
    let mut pc = PC::new(&code);
    let value = pc.read(34).unwrap();
    let mut expected = [0u8; 32];
    for i in 0..32 {
        expected[i] = i as u8 + 3;
    }
    assert_eq!(value.to_be_bytes(), expected);
    assert_eq!(pc.position(), 34);
}

#[test]
fn read_of_a_huge_width_returns_at_once() {
    let mut pc = PC::new(&[0xff, 0xff]);
    let value = pc.read(usize::MAX).unwrap();
    assert_eq!(value.to_be_bytes(), [0u8; 32]);
    assert_eq!(pc.position(), usize::MAX);
    assert!(pc.stopped());
}

#[test]
fn read_that_would_wrap_is_too_large() {
    let mut pc = PC::new(&[0x00, 0x00]);
    pc.jump_unchecked(1);
    assert_eq!(pc.read(usize::MAX), Err(ExecutionError::PCTooLarge));
    assert_eq!(pc.position(), 1);
    assert!(!pc.stopped());
}

#[test]
fn read_opcode_at_the_largest_position_is_too_large() {
    let mut pc = PC::new(&[0x00]);
    pc.jump_unchecked(usize::MAX);
    assert_eq!(pc.read_opcode(), Err(ExecutionError::PCTooLarge));
    assert_eq!(pc.position(), usize::MAX);
    assert_eq!(pc.peek_opcode(), Err(ExecutionError::PCOverflow));
}

#[test]
fn peek_opcode_leaves_the_position() {
    let mut pc = PC::new(&[0x01, 0x5b]);
    assert_eq!(pc.peek_opcode(), Ok(Opcode::ADD));
    assert_eq!(pc.peek_opcode(), Ok(Opcode::ADD));
    assert_eq!(pc.position(), 0);
    assert_eq!(pc.jump(1), Ok(()));
    assert_eq!(pc.peek_opcode(), Ok(Opcode::JUMPDEST));
    pc.jump_unchecked(2);
    assert_eq!(pc.peek_opcode(), Err(ExecutionError::PCOverflow));
}

#[test]
fn empty_code_is_stopped_from_the_start() {
    let mut pc = PC::new(&[]);
    assert!(pc.stopped());
    assert_eq!(pc.position(), 0);
    assert_eq!(pc.code().len(), 0);
    assert_eq!(pc.jump(0), Err(ExecutionError::PCOverflow));
    assert_eq!(pc.read_opcode(), Err(ExecutionError::PCOverflow));
}

#[test]
fn default_counter_is_stopped() {
    let pc = PC::default();
    assert!(pc.stopped());
    assert_eq!(pc.position(), 0);
    assert_eq!(pc.code(), &[] as &[u8]);
}

#[test]
fn fresh_counter_over_code_is_not_stopped() {
    let pc = PC::new(&[0x00]);
    assert!(!pc.stopped());
    assert_eq!(pc.position(), 0);
}

#[test]
fn stop_holds_wherever_the_position_goes() {
    let mut pc = PC::new(&[0x5b, 0x5b, 0x00]);
    assert!(!pc.stopped());
    pc.stop();
    assert!(pc.stopped());
    pc.jump_unchecked(0);
    assert!(pc.stopped());
    assert_eq!(pc.jump(1), Ok(()));
    assert!(pc.stopped());
    assert_eq!(pc.read_opcode(), Ok(Opcode::JUMPDEST));
    assert!(pc.stopped());
    assert!(pc.read(1).is_ok());
    assert!(pc.stopped());
}

#[test]
fn position_at_the_end_is_stopped_and_coming_back_is_not() {
    let mut pc = PC::new(&[0x00, 0x00]);
    pc.jump_unchecked(2);
    assert!(pc.stopped());
    pc.jump_unchecked(1);
    assert!(!pc.stopped());
}

#[test]
fn code_is_kept_as_given() {
    let code = [0x60, 0x01, 0x5b, 0xfe];
    let mut pc = PC::new(&code);
    assert_eq!(pc.code(), &code);
    let _ = pc.read(3);
    pc.stop();
    assert_eq!(pc.code(), &code);
}

#[test]
fn every_target_is_a_jumpdest_that_starts_an_instruction() {
    // PUSH2 5b 5b | JUMPDEST | PUSH1 5b | JUMPDEST | STOP | PUSH32 5b (cut short)
    let code = [0x61, 0x5b, 0x5b, 0x5b, 0x60, 0x5b, 0x5b, 0x00, 0x7f, 0x5b];
    let expected = [false, false, false, true, false, false, true, false, false, false];
    for target in 0..code.len() {
        let mut pc = PC::new(&code);
        let outcome = pc.jump(target);
        if expected[target] {
            assert_eq!(outcome, Ok(()));
            assert_eq!(pc.position(), target);
            assert_eq!(code[target], 0x5b);
        } else {
            assert_eq!(outcome, Err(ExecutionError::PCBadJumpDest));
            assert_eq!(pc.position(), 0);
        }
    }
    let mut pc = PC::new(&code);
    assert_eq!(pc.jump(code.len()), Err(ExecutionError::PCOverflow));
    assert_eq!(pc.jump(usize::MAX), Err(ExecutionError::PCOverflow));
}

#[test]
fn push_data_that_ends_with_the_code() {
    let mut pc = PC::new(&[0x61, 0x5b, 0x5b]);
    assert_eq!(pc.jump(1), Err(ExecutionError::PCBadJumpDest));
    assert_eq!(pc.jump(2), Err(ExecutionError::PCBadJumpDest));
    let mut pc = PC::new(&[0x60, 0x00, 0x5b]);
    assert_eq!(pc.jump(2), Ok(()));
}

#[test]
fn failed_jump_leaves_the_position() {
    let mut pc = PC::new(&[0x00, 0x5b, 0x00]);
    assert_eq!(pc.jump(1), Ok(()));
    assert_eq!(pc.jump(2), Err(ExecutionError::PCBadJumpDest));
    assert_eq!(pc.position(), 1);
    assert_eq!(pc.jump(3), Err(ExecutionError::PCOverflow));
    assert_eq!(pc.position(), 1);
}
