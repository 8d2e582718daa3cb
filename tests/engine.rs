use vdbe::cast::Affinity;
use vdbe::program::{AggFunc, ArithOp, BranchOffset, Insn, PagerOp, Program, ScalarFunc, StorageOp};
use vdbe::state::Register;
use vdbe::value::{Real, Value};
use vdbe::vm::{
    Connection, Outcome, ProgramState, Reply, Request, StepResult, TxFault, TxState, VmError,
};

fn off(n: u32) -> BranchOffset {
    BranchOffset::Offset(n)
}

fn program(max_registers: usize, insns: Vec<Insn>) -> Program {
    Program { max_registers, max_cursors: 2, insns, comments: Vec::new(), descriptions: vec!["t.id".to_string()], constants: Vec::new() }
}

fn autocommit() -> Connection {
    Connection { tx_state: TxState::Idle, auto_commit: true, changes: 0, mvcc: false }
}

fn reg_value(state: &ProgramState, i: usize) -> Value {
    match &state.registers[i] {
        Register::OwnedValue(v) => v.clone(),
        other => panic!("register {} holds {:?}", i, other),
    }
}

fn compare_program(a: i64, b: i64) -> Program {
    program(
        3,
        vec![
            Insn::Integer { value: a, dest: 0 },
            Insn::Integer { value: b, dest: 1 },
            Insn::Compare { start_reg_a: 0, start_reg_b: 1, count: 1 },
            Insn::Jump { target_pc_lt: off(4), target_pc_eq: off(6), target_pc_gt: off(8) },
            Insn::Integer { value: -1, dest: 2 },
            Insn::Goto { target_pc: off(10) },
            Insn::Integer { value: 0, dest: 2 },
            Insn::Goto { target_pc: off(10) },
            Insn::Integer { value: 1, dest: 2 },
            Insn::Goto { target_pc: off(10) },
            Insn::ResultRow { start_reg: 2, count: 1 },
            Insn::Halt { err_code: 0, description: 0 },
        ],
    )
}

#[test]
fn compare_then_jump_routes_by_order() {
    for (a, b, expected) in [(1, 2, -1), (5, 5, 0), (7, 3, 1)] {
        let p = compare_program(a, b);
        let mut state = ProgramState::new(p.max_registers, p.max_cursors);
        let mut conn = autocommit();
        assert_eq!(p.step(&mut state, &mut conn, Reply::Nothing), Ok(Outcome::Stop(StepResult::Row)));
        assert_eq!(state.result_row, Some(vec![Value::Integer(expected)]));
        assert_eq!(state.last_compare, None);
        assert_eq!(p.step(&mut state, &mut conn, Reply::Nothing), Ok(Outcome::Stop(StepResult::Done)));
    }
}

#[test]
fn jump_without_compare_is_an_internal_error() {
    let p = program(1, vec![Insn::Jump { target_pc_lt: off(0), target_pc_eq: off(0), target_pc_gt: off(0) }]);
    let mut state = ProgramState::new(1, 0);
    let mut conn = autocommit();
    assert_eq!(p.step(&mut state, &mut conn, Reply::Nothing), Err(VmError::Internal));
}

#[test]
fn coroutine_alternates_then_exits_once() {
    let p = program(
        2,
        vec![
            Insn::InitCoroutine { yield_reg: 0, jump_on_definition: off(6), start_offset: off(1) },
            Insn::Integer { value: 10, dest: 1 },
            Insn::Yield { yield_reg: 0, end_offset: off(0) },
            Insn::Integer { value: 20, dest: 1 },
            Insn::Yield { yield_reg: 0, end_offset: off(0) },
            Insn::EndCoroutine { yield_reg: 0 },
            Insn::Yield { yield_reg: 0, end_offset: off(9) },
            Insn::ResultRow { start_reg: 1, count: 1 },
            Insn::Goto { target_pc: off(6) },
            Insn::Halt { err_code: 0, description: 0 },
        ],
    );
    let mut state = ProgramState::new(2, 0);
    let mut conn = autocommit();
    let mut rows = Vec::new();
    loop {
        match p.step(&mut state, &mut conn, Reply::Nothing) {
            Ok(Outcome::Stop(StepResult::Row)) => rows.push(state.result_row.clone().unwrap()),
            Ok(Outcome::Stop(StepResult::Done)) => break,
            other => panic!("unexpected {:?}", other),
        }
    }
    assert_eq!(rows, vec![vec![Value::Integer(10)], vec![Value::Integer(20)]]);
    assert_eq!(state.pc, 9);
}

fn deferred_program() -> Program {
    program(
        1,
        vec![
            Insn::DeferredSeek { index_cursor_id: 0, table_cursor_id: 1 },
            Insn::Column { cursor_id: 1, column: 2, dest: 0 },
            Insn::ResultRow { start_reg: 0, count: 1 },
            Insn::Halt { err_code: 0, description: 0 },
        ],
    )
}

#[test]
fn deferred_seek_retried_after_pending_gives_same_column() {
    let p = deferred_program();
    let mut conn = autocommit();
    let mut direct = ProgramState::new(1, 2);
    assert_eq!(
        p.step(&mut direct, &mut conn, Reply::Nothing),
        Ok(Outcome::Need(Request::IndexRowId { cursor_id: 0 }))
    );
    assert_eq!(
        p.step(&mut direct, &mut conn, Reply::RowId(Some(7))),
        Ok(Outcome::Need(Request::SeekRowId { cursor_id: 1, rowid: 7 }))
    );
    assert_eq!(
        p.step(&mut direct, &mut conn, Reply::Found(true)),
        Ok(Outcome::Need(Request::ReadColumn { cursor_id: 1, column: 2 }))
    );
    assert_eq!(
        p.step(&mut direct, &mut conn, Reply::Value(Value::build_text("x"))),
        Ok(Outcome::Stop(StepResult::Row))
    );

    let mut retried = ProgramState::new(1, 2);
    let replies = vec![
        (Reply::Nothing, Ok(Outcome::Need(Request::IndexRowId { cursor_id: 0 }))),
        (Reply::RowId(Some(7)), Ok(Outcome::Need(Request::SeekRowId { cursor_id: 1, rowid: 7 }))),
        (Reply::Pending, Ok(Outcome::Stop(StepResult::IO))),
        (Reply::Nothing, Ok(Outcome::Need(Request::IndexRowId { cursor_id: 0 }))),
        (Reply::RowId(Some(7)), Ok(Outcome::Need(Request::SeekRowId { cursor_id: 1, rowid: 7 }))),
        (Reply::Found(true), Ok(Outcome::Need(Request::ReadColumn { cursor_id: 1, column: 2 }))),
        (Reply::Value(Value::build_text("x")), Ok(Outcome::Stop(StepResult::Row))),
    ];
    for (reply, expected) in replies {
        assert_eq!(p.step(&mut retried, &mut conn, reply), expected);
    }
    assert_eq!(retried.result_row, direct.result_row);
    assert_eq!(retried.result_row, Some(vec![Value::build_text("x")]));
    assert_eq!(retried.deferred_seek, None);
}

#[test]
fn read_transaction_never_asks_for_write() {
    let p = program(1, vec![Insn::Transaction { write: false }, Insn::Halt { err_code: 0, description: 0 }]);
    let mut state = ProgramState::new(1, 0);
    let mut conn = autocommit();
    assert_eq!(p.step(&mut state, &mut conn, Reply::Nothing), Ok(Outcome::Need(Request::BeginRead)));
    assert_eq!(p.step(&mut state, &mut conn, Reply::Ready), Ok(Outcome::Need(Request::EndRead)));
    assert_eq!(conn.tx_state, TxState::Read);
    assert_eq!(p.step(&mut state, &mut conn, Reply::Ready), Ok(Outcome::Stop(StepResult::Done)));
    assert_eq!(conn.tx_state, TxState::Idle);
}

#[test]
fn write_transaction_escalates_and_checkpoints() {
    let p = program(1, vec![Insn::Transaction { write: true }, Insn::Halt { err_code: 0, description: 0 }]);
    let mut state = ProgramState::new(1, 0);
    let mut conn = autocommit();
    assert_eq!(p.step(&mut state, &mut conn, Reply::Nothing), Ok(Outcome::Need(Request::BeginRead)));
    assert_eq!(p.step(&mut state, &mut conn, Reply::Ready), Ok(Outcome::Need(Request::BeginWrite)));
    assert_eq!(conn.tx_state, TxState::Idle);
    assert_eq!(p.step(&mut state, &mut conn, Reply::Ready), Ok(Outcome::Need(Request::EndTx)));
    assert_eq!(conn.tx_state, TxState::Write);
    assert_eq!(p.step(&mut state, &mut conn, Reply::Pending), Ok(Outcome::Stop(StepResult::IO)));
    assert!(state.checkpointing);
    assert_eq!(p.step(&mut state, &mut conn, Reply::Nothing), Ok(Outcome::Need(Request::EndTx)));
    assert_eq!(p.step(&mut state, &mut conn, Reply::Ready), Ok(Outcome::Stop(StepResult::Done)));
    assert_eq!(conn.tx_state, TxState::Idle);
    assert!(!state.checkpointing);
}

#[test]
fn transaction_escalation_from_read_and_noop_in_write() {
    let p = program(1, vec![Insn::Transaction { write: true }, Insn::Transaction { write: false }, Insn::Noop]);
    let mut state = ProgramState::new(1, 0);
    let mut conn = Connection { tx_state: TxState::Read, auto_commit: false, changes: 0, mvcc: false };
    assert_eq!(p.step(&mut state, &mut conn, Reply::Nothing), Ok(Outcome::Need(Request::BeginWrite)));
    assert_eq!(p.step(&mut state, &mut conn, Reply::Busy), Ok(Outcome::Stop(StepResult::Busy)));
    assert_eq!(conn.tx_state, TxState::Read);
    assert_eq!(state.pc, 0);
    assert_eq!(p.step(&mut state, &mut conn, Reply::Ready), Err(VmError::Internal));
    assert_eq!(conn.tx_state, TxState::Write);
    assert_eq!(state.pc, 3);
}

#[test]
fn aggregates_finalized_untouched() {
    let funcs = [
        (AggFunc::Count, Value::Integer(0)),
        (AggFunc::Count0, Value::Integer(0)),
        (AggFunc::Total, Value::Float(Real { bits: 0, text: "0.0".chars().collect() })),
        (AggFunc::Sum, Value::Null),
        (AggFunc::Max, Value::Null),
        (AggFunc::Min, Value::Null),
    ];
    for (func, expected) in funcs {
        let p = program(1, vec![Insn::AggFinal { register: 0, func }, Insn::Halt { err_code: 0, description: 0 }]);
        let mut state = ProgramState::new(1, 0);
        let mut conn = autocommit();
        assert_eq!(p.step(&mut state, &mut conn, Reply::Nothing), Ok(Outcome::Stop(StepResult::Done)));
        assert_eq!(reg_value(&state, 0), expected);
    }
}

fn run_aggregate(func: AggFunc, inputs: Vec<Value>) -> Value {
    let mut insns = Vec::new();
    for v in &inputs {
        match v {
            Value::Integer(i) => insns.push(Insn::Integer { value: *i, dest: 1 }),
            _ => insns.push(Insn::Null { dest: 1 }),
        }
        insns.push(Insn::AggStep { acc_reg: 0, col: 1, delimiter: 2, func });
    }
    insns.push(Insn::AggFinal { register: 0, func });
    insns.push(Insn::Halt { err_code: 0, description: 0 });
    let p = program(3, insns);
    let mut state = ProgramState::new(3, 0);
    let mut conn = autocommit();
    assert_eq!(p.step(&mut state, &mut conn, Reply::Nothing), Ok(Outcome::Stop(StepResult::Done)));
    reg_value(&state, 0)
}

#[test]
fn aggregate_steps() {
    let rows = vec![Value::Integer(3), Value::Null, Value::Integer(9), Value::Integer(-2)];
    assert_eq!(run_aggregate(AggFunc::Count, rows.clone()), Value::Integer(3));
    assert_eq!(run_aggregate(AggFunc::Count0, rows.clone()), Value::Integer(4));
    assert_eq!(run_aggregate(AggFunc::Sum, rows.clone()), Value::Integer(10));
    let ints = vec![Value::Integer(3), Value::Integer(9), Value::Integer(-2)];
    assert_eq!(run_aggregate(AggFunc::Max, ints.clone()), Value::Integer(9));
    assert_eq!(run_aggregate(AggFunc::Min, ints), Value::Integer(-2));
}

#[test]
fn sum_overflow_is_an_error() {
    let p = program(
        3,
        vec![
            Insn::Integer { value: i64::MAX, dest: 1 },
            Insn::AggStep { acc_reg: 0, col: 1, delimiter: 2, func: AggFunc::Sum },
            Insn::AggStep { acc_reg: 0, col: 1, delimiter: 2, func: AggFunc::Sum },
        ],
    );
    let mut state = ProgramState::new(3, 0);
    let mut conn = autocommit();
    assert_eq!(p.step(&mut state, &mut conn, Reply::Nothing), Err(VmError::IntegerOverflow));
}

#[test]
fn avg_asks_the_host_to_add_and_divide() {
    let p = program(
        3,
        vec![
            Insn::Integer { value: 4, dest: 1 },
            Insn::AggStep { acc_reg: 0, col: 1, delimiter: 2, func: AggFunc::Avg },
            Insn::AggFinal { register: 0, func: AggFunc::Avg },
            Insn::Halt { err_code: 0, description: 0 },
        ],
    );
    let mut state = ProgramState::new(3, 0);
    let mut conn = autocommit();
    let zero = Value::Float(Real { bits: 0, text: "0.0".chars().collect() });
    let four = Value::Float(Real { bits: 4.0f64.to_bits(), text: "4.0".chars().collect() });
    assert_eq!(
        p.step(&mut state, &mut conn, Reply::Nothing),
        Ok(Outcome::Need(Request::Arith { op: ArithOp::Add, lhs: zero, rhs: Value::Integer(4) }))
    );
    assert_eq!(
        p.step(&mut state, &mut conn, Reply::Value(four.clone())),
        Ok(Outcome::Need(Request::Arith { op: ArithOp::Divide, lhs: four.clone(), rhs: Value::Integer(1) }))
    );
    assert_eq!(
        p.step(&mut state, &mut conn, Reply::Value(four.clone())),
        Ok(Outcome::Stop(StepResult::Done))
    );
    assert_eq!(reg_value(&state, 0), four);
}

#[test]
fn integer_arithmetic_and_host_fallback() {
    let p = program(
        3,
        vec![
            Insn::Integer { value: 40, dest: 0 },
            Insn::Integer { value: 2, dest: 1 },
            Insn::Arith { op: ArithOp::Add, lhs: 0, rhs: 1, dest: 2 },
            Insn::ResultRow { start_reg: 2, count: 1 },
            Insn::Integer { value: 0, dest: 1 },
            Insn::Arith { op: ArithOp::Divide, lhs: 0, rhs: 1, dest: 2 },
            Insn::ResultRow { start_reg: 2, count: 1 },
            Insn::Integer { value: i64::MAX, dest: 1 },
            Insn::Arith { op: ArithOp::Multiply, lhs: 0, rhs: 1, dest: 2 },
        ],
    );
    let mut state = ProgramState::new(3, 0);
    let mut conn = autocommit();
    assert_eq!(p.step(&mut state, &mut conn, Reply::Nothing), Ok(Outcome::Stop(StepResult::Row)));
    assert_eq!(state.result_row, Some(vec![Value::Integer(42)]));
    assert_eq!(p.step(&mut state, &mut conn, Reply::Nothing), Ok(Outcome::Stop(StepResult::Row)));
    assert_eq!(state.result_row, Some(vec![Value::Null]));
    assert_eq!(
        p.step(&mut state, &mut conn, Reply::Nothing),
        Ok(Outcome::Need(Request::Arith { op: ArithOp::Multiply, lhs: Value::Integer(40), rhs: Value::Integer(i64::MAX) }))
    );
}

#[test]
fn halt_with_error_code_and_auto_commit_errors() {
    let p = program(1, vec![Insn::Halt { err_code: 19, description: 0 }]);
    let mut state = ProgramState::new(1, 0);
    let mut conn = autocommit();
    assert_eq!(p.step(&mut state, &mut conn, Reply::Nothing), Err(VmError::Constraint { code: 19, description: 0 }));
    assert_eq!(p.constraint_message(19, 0), "undocumented halt error code t.id");
    assert_eq!(p.constraint_message(1555, 0), "UNIQUE constraint failed: t.id (19)");
    assert_eq!(p.constraint_message(1555, 9), "UNIQUE constraint failed:  (19)");

    let cases = [
        (false, false, false, VmError::Tx(TxFault::NestedBegin)),
        (true, true, true, VmError::Tx(TxFault::NoTxRollback)),
        (true, false, true, VmError::Tx(TxFault::NoTxCommit)),
        (true, true, false, VmError::Tx(TxFault::RollbackUnsupported)),
    ];
    for (auto_commit, rollback, conn_auto, expected) in cases {
        let p = program(1, vec![Insn::AutoCommit { auto_commit, rollback }]);
        let mut state = ProgramState::new(1, 0);
        let mut conn = Connection { tx_state: TxState::Idle, auto_commit: conn_auto, changes: 0, mvcc: false };
        assert_eq!(p.step(&mut state, &mut conn, Reply::Nothing), Err(expected));
    }

    let p = program(1, vec![Insn::AutoCommit { auto_commit: false, rollback: false }]);
    let mut state = ProgramState::new(1, 0);
    let mut conn = autocommit();
    assert_eq!(p.step(&mut state, &mut conn, Reply::Nothing), Ok(Outcome::Stop(StepResult::Done)));
    assert!(!conn.auto_commit);
}

#[test]
fn variables_and_interrupt() {
    let p = program(1, vec![Insn::Variable { index: 2, dest: 0 }, Insn::ResultRow { start_reg: 0, count: 1 }]);
    let mut state = ProgramState::new(1, 0);
    let mut conn = autocommit();
    assert_eq!(p.step(&mut state, &mut conn, Reply::Nothing), Err(VmError::Unbound(2)));
    state.bind_at(2, Value::Integer(5));
    assert_eq!(state.get_parameter(2), Some(&Value::Integer(5)));
    assert_eq!(state.get_parameter(1), None);
    assert_eq!(p.step(&mut state, &mut conn, Reply::Nothing), Ok(Outcome::Stop(StepResult::Row)));
    assert_eq!(state.result_row, Some(vec![Value::Integer(5)]));
    assert_eq!(state.column(0), Some("5".to_string()));
    assert_eq!(state.column_count(), 1);
    state.reset();
    state.interrupt();
    assert!(state.is_interrupted());
    assert_eq!(p.step(&mut state, &mut conn, Reply::Nothing), Ok(Outcome::Stop(StepResult::Interrupt)));
}

#[test]
fn branch_offsets() {
    assert!(BranchOffset::Label(3).is_label());
    assert!(!BranchOffset::Label(3).is_offset());
    assert!(BranchOffset::Offset(3).is_offset());
    assert_eq!(BranchOffset::Offset(3).to_offset_int(), 3);
    assert_eq!(BranchOffset::Label(4).to_label_value(), 4);
    assert_eq!(BranchOffset::Placeholder.to_debug_int(), i32::MAX);
    assert_eq!(BranchOffset::Offset(3).add(2), BranchOffset::Offset(5));
    assert_eq!(Register::OwnedValue(Value::Integer(1)).get_owned_value(), &Value::Integer(1));
}

#[test]
fn explain_lists_each_instruction() {
    let mut p = program(
        1,
        vec![
            Insn::Integer { value: -5, dest: 0 },
            Insn::Goto { target_pc: BranchOffset::Placeholder },
            Insn::Halt { err_code: 0, description: 0 },
        ],
    );
    p.comments = vec![None, None, Some("done".to_string())];
    assert_eq!(
        p.explain(),
        "addr  opcode  p1  p2  p3  p4  p5  comment\n\
         ----  ------  --  --  --  --  --  -------\n\
         0  Integer  -5  0  0  0  0  \n\
         1  Goto  0  2147483647  0  0  0  \n\
         2  Halt  0  0  0  0  0  done\n"
    );
}

#[test]
fn make_record_collects_registers() {
    let p = program(
        3,
        vec![
            Insn::Integer { value: 1, dest: 0 },
            Insn::Integer { value: 2, dest: 1 },
            Insn::MakeRecord { start_reg: 0, count: 2, dest_reg: 2 },
            Insn::MakeRecord { start_reg: 2, count: 1, dest_reg: 0 },
        ],
    );
    let mut state = ProgramState::new(3, 0);
    let mut conn = autocommit();
    assert_eq!(p.step(&mut state, &mut conn, Reply::Nothing), Err(VmError::Internal));
    assert_eq!(state.pc, 3);
    assert_eq!(
        state.registers[2],
        Register::Record(vec![Value::Integer(1), Value::Integer(2)])
    );
    assert_eq!(
        vdbe::interp::make_owned_record(&state.registers, 0, 2),
        Some(vec![Value::Integer(1), Value::Integer(2)])
    );
    assert_eq!(vdbe::interp::make_owned_record(&state.registers, 1, 2), None);
}

#[test]
fn cast_instruction_converts_in_place() {
    let p = program(
        1,
        vec![
            Insn::Integer { value: 7, dest: 0 },
            Insn::Cast { reg: 0, affinity: Affinity::Text },
            Insn::ResultRow { start_reg: 0, count: 1 },
            Insn::Integer { value: 7, dest: 0 },
            Insn::Cast { reg: 0, affinity: Affinity::Real },
            Insn::ResultRow { start_reg: 0, count: 1 },
        ],
    );
    let mut state = ProgramState::new(1, 0);
    let mut conn = autocommit();
    assert_eq!(p.step(&mut state, &mut conn, Reply::Nothing), Ok(Outcome::Stop(StepResult::Row)));
    assert_eq!(state.result_row, Some(vec![Value::build_text("7")]));
    assert_eq!(
        p.step(&mut state, &mut conn, Reply::Nothing),
        Ok(Outcome::Need(Request::CastReal { value: Value::Integer(7), affinity: Affinity::Real }))
    );
    let seven = Value::Float(Real { bits: 7.0f64.to_bits(), text: "7.0".chars().collect() });
    assert_eq!(p.step(&mut state, &mut conn, Reply::Value(seven.clone())), Ok(Outcome::Stop(StepResult::Row)));
    assert_eq!(state.result_row, Some(vec![seven]));
}

#[test]
fn function_instruction_dispatches() {
    let p = program(
        4,
        vec![
            Insn::Variable { index: 1, dest: 0 },
            Insn::Variable { index: 2, dest: 1 },
            Insn::Variable { index: 3, dest: 2 },
            Insn::Function { func: ScalarFunc::Replace, start_reg: 0, arg_count: 3, dest: 3 },
            Insn::Function { func: ScalarFunc::Upper, start_reg: 3, arg_count: 1, dest: 3 },
            Insn::Function { func: ScalarFunc::Length, start_reg: 3, arg_count: 1, dest: 2 },
            Insn::ResultRow { start_reg: 2, count: 2 },
            Insn::Function { func: ScalarFunc::Abs, start_reg: 1, arg_count: 1, dest: 3 },
            Insn::Function { func: ScalarFunc::Soundex, start_reg: 0, arg_count: 2, dest: 3 },
        ],
    );
    let mut state = ProgramState::new(4, 0);
    let mut conn = autocommit();
    state.bind_at(1, Value::build_text("bob"));
    state.bind_at(2, Value::build_text("b"));
    state.bind_at(3, Value::build_text("a"));
    assert_eq!(p.step(&mut state, &mut conn, Reply::Nothing), Ok(Outcome::Stop(StepResult::Row)));
    assert_eq!(state.result_row, Some(vec![Value::Integer(3), Value::build_text("AOA")]));
    assert_eq!(p.step(&mut state, &mut conn, Reply::Nothing), Err(VmError::Internal));
    assert_eq!(reg_value(&state, 3), Value::Float(Real { bits: 0, text: "0.0".chars().collect() }));

    state.reset();
    state.bind_at(1, Value::build_text("bob"));
    state.bind_at(2, Value::Integer(i64::MIN));
    state.bind_at(3, Value::build_text("a"));
    assert_eq!(p.step(&mut state, &mut conn, Reply::Nothing), Ok(Outcome::Stop(StepResult::Row)));
    assert_eq!(p.step(&mut state, &mut conn, Reply::Nothing), Err(VmError::IntegerOverflow));
}

#[test]
fn index_scan_stops_at_bound() {
    let p = program(
        3,
        vec![
            Insn::Integer { value: 5, dest: 2 },
            Insn::RewindAsync { cursor_id: 0 },
            Insn::RewindAwait { cursor_id: 0, pc_if_empty: off(8) },
            Insn::IdxGE { cursor_id: 0, start_reg: 2, num_regs: 1, target_pc: off(8) },
            Insn::Column { cursor_id: 0, column: 0, dest: 1 },
            Insn::ResultRow { start_reg: 1, count: 1 },
            Insn::NextAsync { cursor_id: 0 },
            Insn::NextAwait { cursor_id: 0, pc_if_next: off(3) },
            Insn::Halt { err_code: 0, description: 0 },
        ],
    );
    let index: Vec<Vec<Value>> = vec![vec![Value::Integer(1)], vec![Value::Integer(3)], vec![Value::Integer(7)]];
    let mut pos = 0usize;
    let mut state = ProgramState::new(3, 1);
    let mut conn = autocommit();
    let mut reply = Reply::Nothing;
    let mut rows = Vec::new();
    loop {
        match p.step(&mut state, &mut conn, reply).unwrap() {
            Outcome::Need(Request::Move { op, .. }) => {
                pos = match op {
                    vdbe::program::CursorMove::Rewind => 0,
                    vdbe::program::CursorMove::Next => pos + 1,
                    other => panic!("unexpected move {:?}", other),
                };
                reply = Reply::Ready;
            }
            Outcome::Need(Request::HasRow { .. }) => reply = Reply::Found(pos < index.len()),
            Outcome::Need(Request::ReadRecord { .. }) => reply = Reply::Record(index.get(pos).cloned()),
            Outcome::Need(Request::ReadColumn { column, .. }) => {
                reply = Reply::Value(index[pos][column].clone())
            }
            Outcome::Stop(StepResult::Row) => {
                rows.push(state.result_row.clone().unwrap());
                reply = Reply::Nothing;
            }
            Outcome::Stop(StepResult::Done) => break,
            other => panic!("unexpected {:?}", other),
        }
    }
    assert_eq!(rows, vec![vec![Value::Integer(1)], vec![Value::Integer(3)]]);
    let listing = p.explain();
    assert!(listing.contains("\n3    IdxGE  0  8  2  0  0  \n"));
    assert!(listing.contains("\n5    ResultRow  1  1  0  0  0  \n"));
    assert!(listing.contains("\n6  NextAsync  0  0  0  0  0  \n"));
}

fn collect_rows(p: &Program, regs: usize) -> Vec<Vec<Value>> {
    let mut state = ProgramState::new(regs, 0);
    let mut conn = autocommit();
    let mut rows = Vec::new();
    loop {
        match p.step(&mut state, &mut conn, Reply::Nothing) {
            Ok(Outcome::Stop(StepResult::Row)) => rows.push(state.result_row.clone().unwrap()),
            Ok(Outcome::Stop(StepResult::Done)) => return rows,
            other => panic!("unexpected {:?}", other),
        }
    }
}

#[test]
fn subroutine_and_countdown() {
    let p = program(
        2,
        vec![
            Insn::Integer { value: 3, dest: 0 },
            Insn::Gosub { target_pc: off(5), return_reg: 1 },
            Insn::DecrJumpZero { reg: 0, target_pc: off(4) },
            Insn::Goto { target_pc: off(1) },
            Insn::Halt { err_code: 0, description: 0 },
            Insn::ResultRow { start_reg: 0, count: 1 },
            Insn::Return { return_reg: 1 },
        ],
    );
    let rows = collect_rows(&p, 2);
    assert_eq!(rows, vec![vec![Value::Integer(3)], vec![Value::Integer(2)], vec![Value::Integer(1)]]);
}

#[test]
fn if_pos_decrements_while_positive() {
    let p = program(
        1,
        vec![
            Insn::Integer { value: 2, dest: 0 },
            Insn::IfPos { reg: 0, target_pc: off(3), decrement_by: 1 },
            Insn::Halt { err_code: 0, description: 0 },
            Insn::ResultRow { start_reg: 0, count: 1 },
            Insn::Goto { target_pc: off(1) },
        ],
    );
    let rows = collect_rows(&p, 1);
    assert_eq!(rows, vec![vec![Value::Integer(1)], vec![Value::Integer(0)]]);
}

#[test]
fn must_be_int_converts_or_fails() {
    let p = program(
        2,
        vec![
            Insn::Variable { index: 1, dest: 0 },
            Insn::MustBeInt { reg: 0 },
            Insn::ZeroOrNull { rg1: 0, rg2: 1, dest: 1 },
            Insn::ResultRow { start_reg: 0, count: 2 },
        ],
    );
    let real = |x: f64| Value::Float(Real { bits: x.to_bits(), text: format!("{:?}", x).chars().collect() });
    let cases = vec![
        (Value::Integer(4), Ok(Value::Integer(4))),
        (real(3.0), Ok(Value::Integer(3))),
        (real(3.5), Err(VmError::NotAnInteger)),
        (Value::build_text("12"), Ok(Value::Integer(12))),
        (Value::build_text("x"), Err(VmError::NotAnInteger)),
        (Value::Null, Err(VmError::NotAnInteger)),
    ];
    for (input, expected) in cases {
        let mut state = ProgramState::new(2, 0);
        let mut conn = autocommit();
        state.bind_at(1, input);
        match expected {
            Ok(v) => {
                assert_eq!(p.step(&mut state, &mut conn, Reply::Nothing), Ok(Outcome::Stop(StepResult::Row)));
                assert_eq!(state.result_row, Some(vec![v, Value::Null]));
            }
            Err(e) => assert_eq!(p.step(&mut state, &mut conn, Reply::Nothing), Err(e)),
        }
    }
}

#[test]
fn concat_and_offset_limit() {
    let p = program(
        4,
        vec![
            Insn::Variable { index: 1, dest: 0 },
            Insn::Variable { index: 2, dest: 1 },
            Insn::Concat { lhs: 0, rhs: 1, dest: 2 },
            Insn::OffsetLimit { limit_reg: 0, combined_reg: 3, offset_reg: 1 },
            Insn::ResultRow { start_reg: 2, count: 2 },
        ],
    );
    let cases = vec![
        (10, 5, "105", 15),
        (10, -5, "10-5", 10),
        (0, 5, "05", -1),
        (i64::MAX, 1, "92233720368547758071", -1),
    ];
    for (limit, offset, text, combined) in cases {
        let mut state = ProgramState::new(4, 0);
        let mut conn = autocommit();
        state.bind_at(1, Value::Integer(limit));
        state.bind_at(2, Value::Integer(offset));
        assert_eq!(p.step(&mut state, &mut conn, Reply::Nothing), Ok(Outcome::Stop(StepResult::Row)));
        assert_eq!(state.result_row, Some(vec![Value::build_text(text), Value::Integer(combined)]));
    }
}

#[test]
fn new_rowid_after_largest_and_random_retry() {
    let p = program(2, vec![Insn::NewRowid { cursor: 0, rowid_reg: 1 }, Insn::ResultRow { start_reg: 1, count: 1 }]);
    let mut conn = autocommit();
    let mut state = ProgramState::new(2, 1);
    assert_eq!(
        p.step(&mut state, &mut conn, Reply::Nothing),
        Ok(Outcome::Need(Request::Move { op: vdbe::program::CursorMove::Last, cursor_id: 0 }))
    );
    assert_eq!(p.step(&mut state, &mut conn, Reply::Ready), Ok(Outcome::Need(Request::ReadRowId { cursor_id: 0 })));
    assert_eq!(p.step(&mut state, &mut conn, Reply::RowId(Some(41))), Ok(Outcome::Stop(StepResult::Row)));
    assert_eq!(state.result_row, Some(vec![Value::Integer(42)]));

    let mut state = ProgramState::new(2, 1);
    p.step(&mut state, &mut conn, Reply::Nothing).unwrap();
    p.step(&mut state, &mut conn, Reply::Ready).unwrap();
    assert_eq!(p.step(&mut state, &mut conn, Reply::RowId(Some(i64::MAX))), Ok(Outcome::Need(Request::RandomRowid)));
    assert_eq!(
        p.step(&mut state, &mut conn, Reply::RowId(Some(7))),
        Ok(Outcome::Need(Request::SeekRowId { cursor_id: 0, rowid: 7 }))
    );
    assert_eq!(p.step(&mut state, &mut conn, Reply::Found(true)), Ok(Outcome::Need(Request::RandomRowid)));
    p.step(&mut state, &mut conn, Reply::RowId(Some(9))).unwrap();
    assert_eq!(p.step(&mut state, &mut conn, Reply::Found(false)), Ok(Outcome::Stop(StepResult::Row)));
    assert_eq!(state.result_row, Some(vec![Value::Integer(9)]));

    let mut state = ProgramState::new(2, 1);
    p.step(&mut state, &mut conn, Reply::Nothing).unwrap();
    p.step(&mut state, &mut conn, Reply::Ready).unwrap();
    p.step(&mut state, &mut conn, Reply::RowId(Some(i64::MAX))).unwrap();
    let mut last = Ok(Outcome::Next);
    for _ in 0..100 {
        p.step(&mut state, &mut conn, Reply::RowId(Some(5))).unwrap();
        last = p.step(&mut state, &mut conn, Reply::Found(true));
    }
    assert_eq!(last, Err(VmError::Internal));
}

#[test]
fn storage_requests_and_seek() {
    let p = program(
        3,
        vec![
            Insn::OpenWriteAsync { cursor_id: 0, root_page: 2 },
            Insn::Integer { value: 5, dest: 0 },
            Insn::MakeRecord { start_reg: 0, count: 1, dest_reg: 1 },
            Insn::InsertAsync { cursor: 0, key_reg: 0, record_reg: 1 },
            Insn::InsertAwait { cursor_id: 0 },
            Insn::SeekGE { cursor_id: 0, start_reg: 0, num_regs: 1, target_pc: off(7) },
            Insn::Close { cursor_id: 0 },
            Insn::Halt { err_code: 0, description: 0 },
        ],
    );
    let mut conn = autocommit();
    let mut state = ProgramState::new(3, 1);
    let expect = vec![
        (Reply::Nothing, Ok(Outcome::Need(Request::Storage { op: StorageOp::OpenWrite, cursor_id: 0, arg: 2, record: vec![] }))),
        (Reply::Ready, Ok(Outcome::Need(Request::Storage { op: StorageOp::Insert, cursor_id: 0, arg: 5, record: vec![Value::Integer(5)] }))),
        (Reply::Pending, Ok(Outcome::Stop(StepResult::IO))),
        (Reply::Ready, Ok(Outcome::Need(Request::Wait { cursor_id: 0 }))),
        (Reply::Ready, Ok(Outcome::Need(Request::Seek { op: vdbe::program::CmpOp::Ge, cursor_id: 0, key: vec![Value::Integer(5)] }))),
        (Reply::Found(true), Ok(Outcome::Need(Request::Storage { op: StorageOp::Close, cursor_id: 0, arg: 0, record: vec![] }))),
        (Reply::Ready, Ok(Outcome::Stop(StepResult::Done))),
    ];
    for (reply, expected) in expect {
        assert_eq!(p.step(&mut state, &mut conn, reply), expected);
    }
}

#[test]
fn integer_division_stays_integer() {
    let p = program(
        3,
        vec![
            Insn::Integer { value: -7, dest: 0 },
            Insn::Integer { value: 2, dest: 1 },
            Insn::Arith { op: ArithOp::Divide, lhs: 0, rhs: 1, dest: 2 },
            Insn::ResultRow { start_reg: 2, count: 1 },
            Insn::Arith { op: ArithOp::Remainder, lhs: 0, rhs: 1, dest: 2 },
            Insn::ResultRow { start_reg: 2, count: 1 },
        ],
    );
    let rows = {
        let mut state = ProgramState::new(3, 0);
        let mut conn = autocommit();
        let mut rows = Vec::new();
        for _ in 0..2 {
            assert_eq!(p.step(&mut state, &mut conn, Reply::Nothing), Ok(Outcome::Stop(StepResult::Row)));
            rows.push(state.result_row.clone().unwrap());
        }
        rows
    };
    assert_eq!(rows, vec![vec![Value::Integer(-3)], vec![Value::Integer(-1)]]);
}

#[test]
fn function_dispatch_reaches_more_functions() {
    let call = |func: ScalarFunc, args: Vec<Value>| -> Result<Value, VmError> {
        vdbe::interp::exec_scalar(func, &args)
    };
    let t = Value::build_text;
    assert_eq!(call(ScalarFunc::Like, vec![t("a%"), t("ABC")]), Ok(Value::Integer(1)));
    assert_eq!(call(ScalarFunc::Like, vec![t("b%"), t("ABC")]), Ok(Value::Integer(0)));
    assert_eq!(call(ScalarFunc::Like, vec![Value::Null, t("ABC")]), Ok(Value::Null));
    assert_eq!(call(ScalarFunc::Trim, vec![t("  x  ")]), Ok(t("x")));
    assert_eq!(call(ScalarFunc::LTrim, vec![t("xxy"), t("x")]), Ok(t("y")));
    assert_eq!(call(ScalarFunc::Substr, vec![t("limbo"), Value::Integer(2), Value::Integer(2)]), Ok(t("im")));
    assert_eq!(call(ScalarFunc::Unhex, vec![t("6f")]), Ok(Value::Blob(vec![0x6f])));
    assert_eq!(call(ScalarFunc::Zeroblob, vec![Value::Integer(2)]), Ok(Value::Blob(vec![0, 0])));
    assert_eq!(call(ScalarFunc::Char, vec![Value::Integer(104), Value::Integer(105)]), Ok(t("hi")));
    assert_eq!(call(ScalarFunc::Concat, vec![t("a"), Value::Integer(1)]), Ok(t("a1")));
    assert_eq!(call(ScalarFunc::ConcatWs, vec![t("-"), t("a"), t("b")]), Ok(t("a-b")));
    assert_eq!(call(ScalarFunc::Min, vec![Value::Integer(3), Value::Integer(1)]), Ok(Value::Integer(1)));
    assert_eq!(call(ScalarFunc::Max, vec![Value::Integer(3), t("a")]), Ok(t("a")));
    assert_eq!(call(ScalarFunc::Max, vec![]), Err(VmError::Internal));
    assert_eq!(call(ScalarFunc::Substr, vec![t("x")]), Err(VmError::Internal));
}

#[test]
fn operators_shift_not_and_or() {
    let t = |op: ArithOp, a: Value, b: Value| vdbe::interp::arith_local_exec(op, &a, &b);
    assert_eq!(t(ArithOp::ShiftLeft, Value::Integer(1), Value::Integer(3)), Some(Value::Integer(8)));
    assert_eq!(t(ArithOp::ShiftLeft, Value::Integer(8), Value::Integer(-2)), Some(Value::Integer(2)));
    assert_eq!(t(ArithOp::ShiftRight, Value::Integer(-8), Value::Integer(100)), Some(Value::Integer(-1)));
    assert_eq!(t(ArithOp::ShiftLeft, Value::Integer(1), Value::Integer(64)), Some(Value::Integer(0)));
    assert_eq!(t(ArithOp::BitNot, Value::Integer(0), Value::Integer(0)), Some(Value::Integer(-1)));
    assert_eq!(t(ArithOp::And, Value::Integer(0), Value::Null), Some(Value::Integer(0)));
    assert_eq!(t(ArithOp::And, Value::Integer(2), Value::Null), Some(Value::Null));
    assert_eq!(t(ArithOp::Or, Value::Integer(2), Value::Null), Some(Value::Integer(1)));
    assert_eq!(t(ArithOp::Not, Value::build_text("abc"), Value::build_text("abc")), Some(Value::Integer(1)));
    assert_eq!(t(ArithOp::Not, Value::build_text("0.5"), Value::build_text("0.5")), None);
    let p = program(
        3,
        vec![
            Insn::Integer { value: 6, dest: 0 },
            Insn::Integer { value: 1, dest: 1 },
            Insn::ShiftRight { lhs: 0, rhs: 1, dest: 2 },
            Insn::Not { reg: 2, dest: 1 },
            Insn::BitNot { reg: 2, dest: 0 },
            Insn::ResultRow { start_reg: 0, count: 3 },
        ],
    );
    let mut state = ProgramState::new(3, 0);
    let mut conn = autocommit();
    assert_eq!(p.step(&mut state, &mut conn, Reply::Nothing), Ok(Outcome::Stop(StepResult::Row)));
    assert_eq!(state.result_row, Some(vec![Value::Integer(-4), Value::Integer(0), Value::Integer(3)]));
}

#[test]
fn halt_reports_row_changes() {
    let p = program(
        1,
        vec![
            Insn::DeleteAsync { cursor_id: 0 },
            Insn::DeleteAwait { cursor_id: 0 },
            Insn::DeleteAsync { cursor_id: 0 },
            Insn::DeleteAwait { cursor_id: 0 },
            Insn::Halt { err_code: 0, description: 0 },
        ],
    );
    let mut state = ProgramState::new(1, 1);
    state.count_changes = true;
    let mut conn = Connection { tx_state: TxState::Write, auto_commit: true, changes: 0, mvcc: false };
    let mut reply = Reply::Nothing;
    loop {
        match p.step(&mut state, &mut conn, reply).unwrap() {
            Outcome::Need(_) => reply = Reply::Ready,
            Outcome::Stop(StepResult::Done) => break,
            other => panic!("unexpected {:?}", other),
        }
    }
    assert_eq!(state.n_change, 2);
    assert_eq!(conn.changes, 2);
    assert_eq!(conn.tx_state, TxState::Idle);
}

#[test]
fn mvcc_transaction_and_commit() {
    let p = program(1, vec![Insn::Transaction { write: true }, Insn::Transaction { write: true }, Insn::Halt { err_code: 0, description: 0 }]);
    let mut state = ProgramState::new(1, 0);
    let mut conn = Connection { tx_state: TxState::Idle, auto_commit: true, changes: 0, mvcc: true };
    assert_eq!(p.step(&mut state, &mut conn, Reply::Nothing), Ok(Outcome::Need(Request::BeginMvTx)));
    assert_eq!(p.step(&mut state, &mut conn, Reply::RowId(Some(12))), Ok(Outcome::Need(Request::CommitMvTxs)));
    assert_eq!(state.mv_tx_id, Some(12));
    assert_eq!(p.step(&mut state, &mut conn, Reply::Ready), Ok(Outcome::Stop(StepResult::Done)));
    assert_eq!(conn.tx_state, TxState::Idle);
}

#[test]
fn sorter_and_virtual_table_requests() {
    let p = program(
        3,
        vec![
            Insn::SorterOpen { cursor_id: 0 },
            Insn::Integer { value: 9, dest: 0 },
            Insn::MakeRecord { start_reg: 0, count: 1, dest_reg: 1 },
            Insn::SorterInsert { cursor_id: 0, record_reg: 1 },
            Insn::SorterSort { cursor_id: 0, pc_if_empty: off(8) },
            Insn::SorterData { cursor_id: 0, dest_reg: 2 },
            Insn::SorterNext { cursor_id: 0, pc_if_next: off(5) },
            Insn::Noop,
            Insn::VOpenAsync { cursor_id: 1 },
            Insn::VFilter { cursor_id: 1, arg_count: 1, args_reg: 0, pc_if_empty: off(12) },
            Insn::VColumn { cursor_id: 1, column: 0, dest: 0 },
            Insn::VNext { cursor_id: 1, pc_if_next: off(10) },
            Insn::ResultRow { start_reg: 0, count: 1 },
        ],
    );
    let mut state = ProgramState::new(3, 2);
    let mut conn = autocommit();
    let script = vec![
        (Reply::Nothing, Ok(Outcome::Need(Request::Storage { op: StorageOp::SorterOpen, cursor_id: 0, arg: 0, record: vec![] }))),
        (Reply::Ready, Ok(Outcome::Need(Request::Storage { op: StorageOp::SorterInsert, cursor_id: 0, arg: 0, record: vec![Value::Integer(9)] }))),
        (Reply::Ready, Ok(Outcome::Need(Request::Move { op: vdbe::program::CursorMove::Sort, cursor_id: 0 }))),
        (Reply::Found(true), Ok(Outcome::Need(Request::ReadRecord { cursor_id: 0 }))),
        (Reply::Record(Some(vec![Value::Integer(9)])), Ok(Outcome::Need(Request::Move { op: vdbe::program::CursorMove::Next, cursor_id: 0 }))),
        (Reply::Found(false), Ok(Outcome::Need(Request::Storage { op: StorageOp::VOpen, cursor_id: 1, arg: 0, record: vec![] }))),
        (Reply::Ready, Ok(Outcome::Need(Request::VFilter { cursor_id: 1, args: vec![Value::Integer(9)] }))),
        (Reply::Found(true), Ok(Outcome::Need(Request::ReadColumn { cursor_id: 1, column: 0 }))),
        (Reply::Value(Value::Integer(4)), Ok(Outcome::Need(Request::Move { op: vdbe::program::CursorMove::Next, cursor_id: 1 }))),
        (Reply::Failed, Err(VmError::Extension)),
    ];
    for (reply, expected) in script {
        assert_eq!(p.step(&mut state, &mut conn, reply), expected);
    }
    assert_eq!(state.registers[2], Register::Record(vec![Value::Integer(9)]));
    assert_eq!(state.registers[0], Register::OwnedValue(Value::Integer(4)));
}

#[test]
fn constants_load_into_registers() {
    let mut p = program(
        2,
        vec![
            Insn::String8 { index: 0, dest: 0 },
            Insn::Blob { index: 1, dest: 1 },
            Insn::ResultRow { start_reg: 0, count: 2 },
            Insn::Real { index: 5, dest: 0 },
        ],
    );
    p.constants = vec![Value::build_text("hi"), Value::Blob(vec![1, 2])];
    let mut state = ProgramState::for_program(&p);
    let mut conn = autocommit();
    assert_eq!(p.step(&mut state, &mut conn, Reply::Nothing), Ok(Outcome::Stop(StepResult::Row)));
    assert_eq!(state.result_row, Some(vec![Value::build_text("hi"), Value::Blob(vec![1, 2])]));
    assert_eq!(p.step(&mut state, &mut conn, Reply::Nothing), Err(VmError::Internal));
}

#[test]
fn pager_and_schema_requests() {
    let p = program(
        2,
        vec![
            Insn::PageCount { db: 0, dest: 0 },
            Insn::CreateBtree { db: 0, root: 1, flags: 1 },
            Insn::ParseSchema { db: 0 },
            Insn::ResultRow { start_reg: 0, count: 2 },
        ],
    );
    let mut state = ProgramState::new(2, 0);
    let mut conn = autocommit();
    let script = vec![
        (Reply::Nothing, Ok(Outcome::Need(Request::Pager { op: PagerOp::PageCount, arg: 0 }))),
        (Reply::Value(Value::Integer(7)), Ok(Outcome::Need(Request::Pager { op: PagerOp::CreateBtree, arg: 1 }))),
        (Reply::Pending, Ok(Outcome::Stop(StepResult::IO))),
        (Reply::Value(Value::Integer(8)), Ok(Outcome::Need(Request::Pager { op: PagerOp::ParseSchema, arg: 0 }))),
        (Reply::Ready, Ok(Outcome::Stop(StepResult::Row))),
    ];
    for (reply, expected) in script {
        assert_eq!(p.step(&mut state, &mut conn, reply), expected);
    }
    assert_eq!(state.result_row, Some(vec![Value::Integer(7), Value::Integer(8)]));
}
