use vm::error::VmError;
use vm::exec::VmState;
use vm::op::{Op, Operation};

#[test]
fn test_exec_simple() {
    let ops = vec![
        Op::new_1(Operation::PushInt, 5).unwrap(),
        Op::new_0(Operation::PopInt).unwrap(),
    ];

    let mut vm = VmState::new(ops);

    assert!(vm.run(1000).unwrap());

    if let Some(v) = *vm.get_last_pop() {
        assert_eq!(5, v)
    } else {
        panic!()
    }
}

#[test]
fn test_print() {
    let ops = vec![
        Op::new_1(Operation::PushInt, 5).unwrap(),
        Op::new_0(Operation::Print).unwrap(),
    ];

    let mut vm = VmState::new(ops);

    assert!(vm.run(1000).unwrap());

    assert_eq!(vec![5], *vm.get_output());
    assert_eq!(Some(5), *vm.get_last_pop());
}

#[test]
fn test_add() {
    let ops = vec![
        Op::new_1(Operation::PushInt, 5).unwrap(),
        Op::new_1(Operation::PushInt, 5).unwrap(),
        Op::new_0(Operation::Dup).unwrap(),
        Op::new_0(Operation::Add).unwrap(),
        Op::new_0(Operation::Add).unwrap(),
        Op::new_0(Operation::PopInt).unwrap(),
    ];

    let mut vm = VmState::new(ops);

    assert!(vm.run(1000).unwrap());

    if let Some(v) = *vm.get_last_pop() {
        assert_eq!(15, v)
    } else {
        panic!()
    }
}

#[test]
fn test_jmp() {
    let ops = vec![
        Op::new_1(Operation::PushInt, 5).unwrap(),
        Op::new_1(Operation::PushInt, 5).unwrap(),
        Op::new_0(Operation::Dup).unwrap(),
        Op::new_1(Operation::Jmp, 5).unwrap(),
        Op::new_0(Operation::Add).unwrap(),
        Op::new_0(Operation::Add).unwrap(),
        Op::new_0(Operation::PopInt).unwrap(),
    ];

    let mut vm = VmState::new(ops);

    assert!(vm.run(1000).unwrap());

    if let Some(v) = *vm.get_last_pop() {
        assert_eq!(10, v)
    } else {
        panic!()
    }
}

#[test]
fn test_euclid() {}

#[test]
fn test_add_order_independent() {
    let one_way = vec![
        Op::new_1(Operation::PushInt, 3).unwrap(),
        Op::new_1(Operation::PushInt, 39).unwrap(),
        Op::new_0(Operation::Add).unwrap(),
        Op::new_0(Operation::PopInt).unwrap(),
    ];
    let other_way = vec![
        Op::new_1(Operation::PushInt, 39).unwrap(),
        Op::new_1(Operation::PushInt, 3).unwrap(),
        Op::new_0(Operation::Add).unwrap(),
        Op::new_0(Operation::PopInt).unwrap(),
    ];

    let mut vm1 = VmState::new(one_way);
    let mut vm2 = VmState::new(other_way);
    assert!(vm1.run(1000).unwrap());
    assert!(vm2.run(1000).unwrap());

    assert_eq!(Some(42), *vm1.get_last_pop());
    assert_eq!(Some(42), *vm2.get_last_pop());
}

#[test]
fn test_sub_is_order_sensitive() {
    let ops = vec![
        Op::new_1(Operation::PushInt, 7).unwrap(),
        Op::new_1(Operation::PushInt, 3).unwrap(),
        Op::new_0(Operation::Sub).unwrap(),
        Op::new_0(Operation::PopInt).unwrap(),
    ];

    let mut vm = VmState::new(ops);
    assert!(vm.run(1000).unwrap());

    assert_eq!(Some(4), *vm.get_last_pop());
}

#[test]
fn test_mul_div_mod_results() {
    let product = vec![
        Op::new_1(Operation::PushInt, 6).unwrap(),
        Op::new_1(Operation::PushInt, 7).unwrap(),
        Op::new_0(Operation::Mul).unwrap(),
        Op::new_0(Operation::PopInt).unwrap(),
    ];
    let quotient = vec![
        Op::new_1(Operation::PushInt, 7).unwrap(),
        Op::new_1(Operation::PushInt, 2).unwrap(),
        Op::new_0(Operation::Div).unwrap(),
        Op::new_0(Operation::PopInt).unwrap(),
    ];
    let remainder = vec![
        Op::new_1(Operation::PushInt, 7).unwrap(),
        Op::new_1(Operation::PushInt, 2).unwrap(),
        Op::new_0(Operation::Mod).unwrap(),
        Op::new_0(Operation::PopInt).unwrap(),
    ];

    let mut vm = VmState::new(product);
    assert!(vm.run(1000).unwrap());
    assert_eq!(Some(42), *vm.get_last_pop());

    let mut vm = VmState::new(quotient);
    assert!(vm.run(1000).unwrap());
    assert_eq!(Some(3), *vm.get_last_pop());

    let mut vm = VmState::new(remainder);
    assert!(vm.run(1000).unwrap());
    assert_eq!(Some(1), *vm.get_last_pop());
}

#[test]
fn test_swap_top_two() {
    let ops = vec![
        Op::new_1(Operation::PushInt, 1).unwrap(),
        Op::new_1(Operation::PushInt, 2).unwrap(),
        Op::new_0(Operation::Swp).unwrap(),
        Op::new_0(Operation::PopInt).unwrap(),
    ];

    let mut vm = VmState::new(ops);
    assert!(vm.run(1000).unwrap());

    assert_eq!(Some(1), *vm.get_last_pop());
}

#[test]
fn test_add_wraps_on_overflow() {
    let ops = vec![
        Op::new_1(Operation::PushInt, i32::MAX).unwrap(),
        Op::new_1(Operation::PushInt, 1).unwrap(),
        Op::new_0(Operation::Add).unwrap(),
        Op::new_0(Operation::PopInt).unwrap(),
    ];

    let mut vm = VmState::new(ops);
    assert!(vm.run(1000).unwrap());

    assert_eq!(Some(i32::MIN), *vm.get_last_pop());
}

#[test]
fn test_div_wraps_on_overflow() {
    let ops = vec![
        Op::new_1(Operation::PushInt, i32::MIN).unwrap(),
        Op::new_1(Operation::PushInt, -1).unwrap(),
        Op::new_0(Operation::Div).unwrap(),
        Op::new_0(Operation::PopInt).unwrap(),
    ];

    let mut vm = VmState::new(ops);
    assert!(vm.run(1000).unwrap());

    assert_eq!(Some(i32::MIN), *vm.get_last_pop());
}

#[test]
fn test_division_by_zero_fails() {
    let ops = vec![
        Op::new_1(Operation::PushInt, 5).unwrap(),
        Op::new_1(Operation::PushInt, 0).unwrap(),
        Op::new_0(Operation::Div).unwrap(),
    ];

    let mut vm = VmState::new(ops);
    assert_eq!(Err(VmError::DivisionByZero { pc: 2 }), vm.run(1000));
    assert_eq!(None, *vm.get_last_pop());
}

#[test]
fn test_modulo_by_zero_fails() {
    let ops = vec![
        Op::new_1(Operation::PushInt, 5).unwrap(),
        Op::new_1(Operation::PushInt, 0).unwrap(),
        Op::new_0(Operation::Mod).unwrap(),
    ];

    let mut vm = VmState::new(ops);
    assert_eq!(Err(VmError::DivisionByZero { pc: 2 }), vm.run(1000));
    assert_eq!(None, *vm.get_last_pop());
}

#[test]
fn test_stack_underflow_fails() {
    let mut vm = VmState::new(vec![Op::new_0(Operation::PopInt).unwrap()]);
    assert_eq!(Err(VmError::StackUnderflow { pc: 0 }), vm.run(1000));

    let mut vm = VmState::new(vec![Op::new_0(Operation::Add).unwrap()]);
    assert_eq!(Err(VmError::StackUnderflow { pc: 0 }), vm.run(1000));

    let one_operand = vec![
        Op::new_1(Operation::PushInt, 1).unwrap(),
        Op::new_0(Operation::Swp).unwrap(),
    ];
    let mut vm = VmState::new(one_operand);
    assert_eq!(Err(VmError::StackUnderflow { pc: 1 }), vm.run(1000));

    let mut vm = VmState::new(vec![Op::new_0(Operation::Dup).unwrap()]);
    assert_eq!(Err(VmError::StackUnderflow { pc: 0 }), vm.run(1000));

    let mut vm = VmState::new(vec![Op::new_1(Operation::JmpEqZ, 0).unwrap()]);
    assert_eq!(Err(VmError::StackUnderflow { pc: 0 }), vm.run(1000));

    let mut vm = VmState::new(vec![Op::new_0(Operation::Print).unwrap()]);
    assert_eq!(Err(VmError::StackUnderflow { pc: 0 }), vm.run(1000));
}

#[test]
fn test_unsupported_operations_fail() {
    let mut vm = VmState::new(vec![Op::new_0(Operation::Input).unwrap()]);
    assert_eq!(Err(VmError::UnsupportedOperation { pc: 0 }), vm.run(1000));

    let mut vm = VmState::new(vec![Op::new_0(Operation::Debug).unwrap()]);
    assert_eq!(Err(VmError::UnsupportedOperation { pc: 0 }), vm.run(1000));
}

#[test]
fn test_jump_if_zero_pops_either_way() {
    let taken = vec![
        Op::new_1(Operation::PushInt, 5).unwrap(),
        Op::new_1(Operation::PushInt, 0).unwrap(),
        Op::new_1(Operation::JmpEqZ, 4).unwrap(),
        Op::new_0(Operation::Add).unwrap(),
        Op::new_0(Operation::PopInt).unwrap(),
    ];
    let mut vm = VmState::new(taken);
    assert!(vm.run(1000).unwrap());
    assert_eq!(Some(5), *vm.get_last_pop());

    let not_taken = vec![
        Op::new_1(Operation::PushInt, 5).unwrap(),
        Op::new_1(Operation::PushInt, 1).unwrap(),
        Op::new_1(Operation::JmpEqZ, 4).unwrap(),
        Op::new_0(Operation::Nop).unwrap(),
        Op::new_0(Operation::PopInt).unwrap(),
    ];
    let mut vm = VmState::new(not_taken);
    assert!(vm.run(1000).unwrap());
    assert_eq!(Some(5), *vm.get_last_pop());
}

#[test]
fn test_jump_to_program_length_halts() {
    let ops = vec![
        Op::new_1(Operation::PushInt, 5).unwrap(),
        Op::new_1(Operation::Jmp, 2).unwrap(),
    ];
    let mut vm = VmState::new(ops);
    assert!(vm.run(1000).unwrap());
    assert_eq!(None, *vm.get_last_pop());

    let far = vec![Op::new_1(Operation::Jmp, 100).unwrap()];
    let mut vm = VmState::new(far);
    assert!(vm.run(1000).unwrap());

    let backward_out = vec![Op::new_1(Operation::Jmp, -1).unwrap()];
    let mut vm = VmState::new(backward_out);
    assert!(vm.run(1000).unwrap());
}

#[test]
fn test_run_reports_spent_budget() {
    let ops = vec![Op::new_1(Operation::Jmp, 0).unwrap()];
    let mut vm = VmState::new(ops);

    assert_eq!(Ok(false), vm.run(10));
    assert_eq!(Ok(false), vm.run(10000));
}

#[test]
fn test_empty_program_halts_at_once() {
    let mut vm = VmState::new(Vec::new());
    assert!(vm.run(0).unwrap());
    assert_eq!(None, *vm.get_last_pop());
    assert!(vm.get_output().is_empty());
}

#[test]
fn test_decode_then_run() {
    let prog = vm::op::decode_program(vec![1, 5, 2]).unwrap();
    let mut vm = VmState::new(prog);
    assert!(vm.run(1000).unwrap());
    assert_eq!(Some(5), *vm.get_last_pop());
}
