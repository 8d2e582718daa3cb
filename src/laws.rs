//! Properties of the interpreter that span several instructions or calls.
use crate::cast::{Affinity, cast_spec};
use crate::program::{AggFunc, BranchOffset, Insn};
use crate::state::RegisterView;
use crate::value::{ValueView, real_to_int, value_cmp};
use crate::vm::{
    Connection, OutcomeView, ReplyView, RequestView, StateView, StepResult, TxState, VmError,
    agg_final_insn, column_insn, compare_insn, drive, end_coroutine_insn,
    insn_step, jump_insn, real_zero, resolve_deferred, transaction_insn, val_at, values_in,
    yield_insn, run, STEP_FUEL,
};
use vstd::prelude::*;

verus! {

/// `Compare` over one register pair followed by `Jump` lands on the less,
/// equal or greater target exactly as the two values order, and the jump
/// consumes the comparison.
pub proof fn lemma_compare_then_jump(
    p: Seq<Insn>,
    s: StateView,
    c: Connection,
    r1: ReplyView,
    r2: ReplyView,
    a: usize,
    b: usize,
    lt: u32,
    eq: u32,
    gt: u32,
)
    requires
        0 <= s.pc,
        s.pc + 1 < p.len(),
        p[s.pc] == (Insn::Compare { start_reg_a: a, start_reg_b: b, count: 1 }),
        p[s.pc + 1] == (Insn::Jump {
            target_pc_lt: BranchOffset::Offset(lt),
            target_pc_eq: BranchOffset::Offset(eq),
            target_pc_gt: BranchOffset::Offset(gt),
        }),
        a < b,
        val_at(s, a as int) is Some,
        val_at(s, b as int) is Some,
    ensures
        ({
            let o = value_cmp(val_at(s, a as int)->0, val_at(s, b as int)->0);
            let t1 = insn_step(p, s, c, r1);
            let t2 = insn_step(p, t1.state, t1.conn, r2);
            &&& t1.outcome == Ok::<OutcomeView, VmError>(OutcomeView::Next)
            &&& t2.outcome == Ok::<OutcomeView, VmError>(OutcomeView::Next)
            &&& t2.state.pc == (if o < 0 { lt } else if o == 0 { eq } else { gt }) as int
            &&& t2.state.last_compare is None
            &&& t2.state.registers == s.registers
        }),
{
    reveal(insn_step);
    reveal(compare_insn);
    reveal(jump_insn);
    assert(val_at(s, a + 0) is Some);
    assert(values_in(s, a as int, 1));
    assert(values_in(s, b as int, 1));
    crate::value::lemma_value_order(val_at(s, a as int)->0, val_at(s, b as int)->0);
}

/// Finalizing an aggregate that never saw a row: `count` gives 0, `total`
/// gives 0.0, and every other function (`sum`, `avg`, `min`, `max`,
/// `group_concat`) gives NULL.
pub proof fn lemma_final_of_untouched(p: Seq<Insn>, s: StateView, c: Connection, r: ReplyView, reg: usize, f: AggFunc)
    requires
        0 <= s.pc < p.len(),
        s.pc + 1 <= usize::MAX,
        p[s.pc] == (Insn::AggFinal { register: reg, func: f }),
        reg < s.registers.len(),
        s.registers[reg as int] == RegisterView::Value(ValueView::Null),
    ensures
        ({
            let t = insn_step(p, s, c, r);
            &&& t.outcome == Ok::<OutcomeView, VmError>(OutcomeView::Next)
            &&& t.state.pc == s.pc + 1
            &&& t.state.registers[reg as int] == RegisterView::Value(
                if f == AggFunc::Count || f == AggFunc::Count0 {
                    ValueView::Integer(0)
                } else if f == AggFunc::Total {
                    real_zero()
                } else {
                    ValueView::Null
                },
            )
        }),
{
    reveal(insn_step);
    reveal(agg_final_insn);
}

/// A `Yield` whose coroutine has not ended swaps the program counter with the
/// register: control moves to the saved address and the register keeps the
/// address after the `Yield`. A second `Yield` on the same register at that
/// address hands control back to just after the first one.
pub proof fn lemma_yield_round_trip(p: Seq<Insn>, s: StateView, c: Connection, r1: ReplyView, r2: ReplyView, y: usize, e1: BranchOffset, e2: BranchOffset, entry: i64)
    requires
        0 <= s.pc < p.len(),
        p.len() <= usize::MAX,
        s.pc + 1 <= i64::MAX,
        p[s.pc] == (Insn::Yield { yield_reg: y, end_offset: e1 }),
        val_at(s, y as int) == Some(ValueView::Integer(entry)),
        0 <= entry < p.len(),
        entry + 1 <= i64::MAX,
        p[entry as int] == (Insn::Yield { yield_reg: y, end_offset: e2 }),
        y < s.ended.len(),
        !s.ended[y as int],
    ensures
        ({
            let t1 = insn_step(p, s, c, r1);
            let t2 = insn_step(p, t1.state, t1.conn, r2);
            &&& t1.outcome == Ok::<OutcomeView, VmError>(OutcomeView::Next)
            &&& t1.state.pc == entry
            &&& val_at(t1.state, y as int) == Some(ValueView::Integer((s.pc + 1) as i64))
            &&& t2.outcome == Ok::<OutcomeView, VmError>(OutcomeView::Next)
            &&& t2.state.pc == s.pc + 1
            &&& val_at(t2.state, y as int) == Some(ValueView::Integer((entry + 1) as i64))
        }),
{
    reveal(insn_step);
    reveal(yield_insn);
    let t1 = insn_step(p, s, c, r1);
    assert(t1 == yield_insn(s, c, y as int, e1));
    assert(t1.state.ended == s.ended);
    assert(t1.state.registers[y as int] == RegisterView::Value(ValueView::Integer((s.pc + 1) as i64)));
    assert(val_at(t1.state, y as int) == Some(ValueView::Integer((s.pc + 1) as i64)));
    assert(t1.state.pc == entry);
    let t2 = insn_step(p, t1.state, t1.conn, r2);
    assert(t2 == yield_insn(t1.state, t1.conn, y as int, e2));
}

/// `EndCoroutine` marks the coroutine ended and resumes at the `Yield` that
/// last handed it control; that `Yield` then leaves through its end offset.
pub proof fn lemma_end_coroutine_exits(p: Seq<Insn>, s: StateView, c: Connection, r1: ReplyView, r2: ReplyView, y: usize, resume: i64, end: u32)
    requires
        0 <= s.pc < p.len(),
        p[s.pc] == (Insn::EndCoroutine { yield_reg: y }),
        val_at(s, y as int) == Some(ValueView::Integer(resume)),
        1 <= resume <= p.len(),
        p.len() <= usize::MAX,
        p[resume - 1] == (Insn::Yield { yield_reg: y, end_offset: BranchOffset::Offset(end) }),
        y < s.ended.len(),
    ensures
        ({
            let t1 = insn_step(p, s, c, r1);
            let t2 = insn_step(p, t1.state, t1.conn, r2);
            &&& t1.outcome == Ok::<OutcomeView, VmError>(OutcomeView::Next)
            &&& t1.state.pc == resume - 1
            &&& t1.state.ended[y as int]
            &&& t2.outcome == Ok::<OutcomeView, VmError>(OutcomeView::Next)
            &&& t2.state.pc == end
        }),
{
    reveal(insn_step);
    reveal(end_coroutine_insn);
    reveal(yield_insn);
    let t1 = insn_step(p, s, c, r1);
    assert(t1 == end_coroutine_insn(s, c, y as int));
    assert(t1.state.pc == resume - 1);
    assert(val_at(t1.state, y as int) == Some(ValueView::Integer(resume)));
    let t2 = insn_step(p, t1.state, t1.conn, r2);
    assert(t2 == yield_insn(t1.state, t1.conn, y as int, BranchOffset::Offset(end)));
}

proof fn lemma_column_step(p: Seq<Insn>, s: StateView, c: Connection, r: ReplyView, cursor: usize, column: usize, dest: usize)
    requires
        0 <= s.pc < p.len(),
        p[s.pc] == (Insn::Column { cursor_id: cursor, column, dest }),
    ensures
        insn_step(p, s, c, r) == column_insn(s, c, r, cursor, column, dest as int),
{
    reveal(insn_step);
}

/// A deferred seek whose table seek first reports pending I/O and is then
/// retried from scratch ends exactly as one that completed at once: same
/// state, same outcome, and the column value in the destination register.
pub proof fn lemma_deferred_seek_retry(
    p: Seq<Insn>,
    s: StateView,
    c: Connection,
    cursor: usize,
    column: usize,
    dest: usize,
    index_cursor: usize,
    table_cursor: usize,
    rowid: i64,
    found: bool,
    v: ValueView,
)
    requires
        0 <= s.pc < p.len(),
        s.pc + 1 <= usize::MAX,
        p[s.pc] == (Insn::Column { cursor_id: cursor, column, dest }),
        dest < s.registers.len(),
        s.deferred_seek == Some((index_cursor, table_cursor)),
        s.deferred_rowid is None,
    ensures
        ({
            let direct = drive(p, s, c, seq![ReplyView::RowId(Some(rowid)), ReplyView::Found(found), ReplyView::Value(v)]);
            let retried = drive(
                p,
                s,
                c,
                seq![
                    ReplyView::RowId(Some(rowid)),
                    ReplyView::Pending,
                    ReplyView::Nothing,
                    ReplyView::RowId(Some(rowid)),
                    ReplyView::Found(found),
                    ReplyView::Value(v),
                ],
            );
            &&& direct == retried
            &&& direct.outcome == Ok::<OutcomeView, VmError>(OutcomeView::Next)
            &&& direct.state.registers[dest as int] == RegisterView::Value(v)
            &&& direct.state.deferred_seek is None
            &&& direct.state.pc == s.pc + 1
        }),
{
    reveal(column_insn);
    reveal(resolve_deferred);
    let ra = seq![ReplyView::RowId(Some(rowid)), ReplyView::Found(found), ReplyView::Value(v)];
    let rb = seq![
        ReplyView::RowId(Some(rowid)),
        ReplyView::Pending,
        ReplyView::Nothing,
        ReplyView::RowId(Some(rowid)),
        ReplyView::Found(found),
        ReplyView::Value(v),
    ];
    let s1 = StateView { deferred_rowid: Some(rowid), ..s };
    let s2 = StateView { deferred_seek: None, deferred_rowid: None, ..s };
    lemma_column_step(p, s, c, ReplyView::RowId(Some(rowid)), cursor, column, dest);
    lemma_column_step(p, s, c, ReplyView::Nothing, cursor, column, dest);
    lemma_column_step(p, s1, c, ReplyView::Found(found), cursor, column, dest);
    lemma_column_step(p, s1, c, ReplyView::Pending, cursor, column, dest);
    lemma_column_step(p, s2, c, ReplyView::Value(v), cursor, column, dest);
    let t1 = insn_step(p, s, c, ReplyView::RowId(Some(rowid)));
    assert(t1.state == s1 && t1.conn == c);
    let t2 = insn_step(p, s1, c, ReplyView::Found(found));
    assert(t2.state == s2 && t2.conn == c);
    let u2 = insn_step(p, s1, c, ReplyView::Pending);
    assert(u2.state == s && u2.conn == c);
    let u3 = insn_step(p, s, c, ReplyView::Nothing);
    assert(u3.state == s && u3.conn == c);
    let t3 = insn_step(p, s2, c, ReplyView::Value(v));
    assert(t3.outcome == Ok::<OutcomeView, VmError>(OutcomeView::Next));
    assert(ra.drop_first() =~= seq![ReplyView::Found(found), ReplyView::Value(v)]);
    assert(ra.drop_first().drop_first() =~= seq![ReplyView::Value(v)]);
    let b1 = rb.drop_first();
    let b2 = b1.drop_first();
    let b3 = b2.drop_first();
    assert(b1 =~= seq![ReplyView::Pending, ReplyView::Nothing, ReplyView::RowId(Some(rowid)), ReplyView::Found(found), ReplyView::Value(v)]);
    assert(b2 =~= seq![ReplyView::Nothing, ReplyView::RowId(Some(rowid)), ReplyView::Found(found), ReplyView::Value(v)]);
    assert(b3 =~= ra);
    assert(drive(p, s2, c, ra.drop_first().drop_first()) == t3);
    assert(drive(p, s1, c, ra.drop_first()) == drive(p, s2, c, ra.drop_first().drop_first()));
    assert(drive(p, s, c, ra) == drive(p, s1, c, ra.drop_first()));
    assert(drive(p, s, c, b3) == drive(p, s, c, ra));
    assert(drive(p, s, c, b2) == drive(p, s, c, b3));
    assert(drive(p, s1, c, b1) == drive(p, s, c, b2));
    assert(drive(p, s, c, rb) == drive(p, s1, c, b1));
}

/// Transaction escalation. A read statement moves `Idle` to `Read` and never
/// asks for a write transaction; a write statement moves `Idle` (through a
/// read transaction) or `Read` to `Write`; once in `Write`, every
/// `Transaction` just moves on. A `Busy` answer stops with `Busy` and leaves
/// the connection as it was.
pub proof fn lemma_transaction_escalation(p: Seq<Insn>, s: StateView, c: Connection, r: ReplyView, write: bool)
    requires
        0 <= s.pc < p.len(),
        p[s.pc] == (Insn::Transaction { write }),
        !s.read_begun,
        !c.mvcc,
    ensures
        ({
            let t = insn_step(p, s, c, r);
            &&& (c.tx_state == TxState::Write) ==> t.outcome == Ok::<OutcomeView, VmError>(OutcomeView::Next)
                && t.conn == c && t.state.pc == s.pc + 1
            &&& (c.tx_state == TxState::Read && !write) ==> t.outcome == Ok::<OutcomeView, VmError>(OutcomeView::Next)
                && t.conn == c
            &&& (!write && c.tx_state == TxState::Idle) ==> t.outcome != Ok::<OutcomeView, VmError>(OutcomeView::Need(RequestView::BeginWrite))
            &&& (c.tx_state == TxState::Idle && r == ReplyView::Nothing) ==> t.outcome == Ok::<OutcomeView, VmError>(OutcomeView::Need(RequestView::BeginRead))
            &&& (!write && c.tx_state == TxState::Idle && r == ReplyView::Ready) ==> t.conn.tx_state == TxState::Read
                && t.outcome == Ok::<OutcomeView, VmError>(OutcomeView::Next)
            &&& (write && c.tx_state == TxState::Read && r == ReplyView::Ready) ==> t.conn.tx_state == TxState::Write
                && t.outcome == Ok::<OutcomeView, VmError>(OutcomeView::Next)
            &&& (r == ReplyView::Busy) ==> t.conn == c
            &&& (r == ReplyView::Busy && c.tx_state != TxState::Write && !(c.tx_state == TxState::Read && !write))
                ==> t.outcome == Ok::<OutcomeView, VmError>(OutcomeView::Stop(StepResult::Busy))
        }),
{
    reveal(insn_step);
    reveal(transaction_insn);
}

/// A write statement started with no transaction open reaches `Write` after
/// the host grants the read and then the write transaction.
pub proof fn lemma_write_from_idle(p: Seq<Insn>, s: StateView, c: Connection)
    requires
        0 <= s.pc < p.len(),
        p[s.pc] == (Insn::Transaction { write: true }),
        !s.read_begun,
        !c.mvcc,
        c.tx_state == TxState::Idle,
    ensures
        ({
            let t1 = insn_step(p, s, c, ReplyView::Ready);
            let t2 = drive(p, s, c, seq![ReplyView::Ready, ReplyView::Ready]);
            &&& t1.outcome == Ok::<OutcomeView, VmError>(OutcomeView::Need(RequestView::BeginWrite))
            &&& t1.conn == c
            &&& t2.outcome == Ok::<OutcomeView, VmError>(OutcomeView::Next)
            &&& t2.conn.tx_state == TxState::Write
            &&& t2.state.pc == s.pc + 1
            &&& !t2.state.read_begun
        }),
{
    reveal(insn_step);
    reveal(transaction_insn);
    reveal_with_fuel(drive, 3);
    assert(seq![ReplyView::Ready, ReplyView::Ready].drop_first() =~= seq![ReplyView::Ready]);
}

/// CAST of NULL gives NULL whatever the affinity; a REAL cast to INTEGER
/// is its truncation, which always lies in the `i64` range, so a round trip
/// through REAL never exceeds `i64::MAX`.
pub proof fn lemma_cast_null_and_truncation(a: Affinity, b: u64, t: Seq<char>)
    ensures
        cast_spec(ValueView::Null, a) == Some(ValueView::Null),
        cast_spec(ValueView::Float(b, t), Affinity::Integer) == Some(ValueView::Integer(real_to_int(b))),
        i64::MIN <= real_to_int(b) <= i64::MAX,
{
}

/// When an instruction goes on, `step` goes on from the state it leaves,
/// with one instruction less of fuel and no reply.
pub proof fn lemma_run_continues(p: Seq<Insn>, s: StateView, c: Connection, r: ReplyView, fuel: nat)
    requires
        !s.interrupted,
        fuel > 0,
        insn_step(p, s, c, r).outcome == Ok::<OutcomeView, VmError>(OutcomeView::Next),
    ensures
        run(p, s, c, r, fuel) == run(
            p,
            insn_step(p, s, c, r).state,
            insn_step(p, s, c, r).conn,
            ReplyView::Nothing,
            (fuel - 1) as nat,
        ),
{
}

/// When an instruction stops, asks the host for something, or fails, that
/// is what `step` returns.
pub proof fn lemma_run_stops(p: Seq<Insn>, s: StateView, c: Connection, r: ReplyView, fuel: nat)
    requires
        !s.interrupted,
        insn_step(p, s, c, r).outcome != Ok::<OutcomeView, VmError>(OutcomeView::Next),
    ensures
        run(p, s, c, r, fuel) == insn_step(p, s, c, r),
{
}

/// At the level of `step`: a `Compare` of one register pair followed by
/// `Jump` continues exactly as a run started at the less, equal or greater
/// target (by the values' order), with the registers unchanged and the
/// comparison consumed. Swapping the two registers swaps the less and
/// greater targets and keeps the equal one.
pub proof fn lemma_step_compare_then_jump(
    p: Seq<Insn>,
    s: StateView,
    c: Connection,
    r: ReplyView,
    a: usize,
    b: usize,
    lt: u32,
    eq: u32,
    gt: u32,
)
    requires
        !s.interrupted,
        0 <= s.pc,
        s.pc + 1 < p.len(),
        p[s.pc] == (Insn::Compare { start_reg_a: a, start_reg_b: b, count: 1 }),
        p[s.pc + 1] == (Insn::Jump {
            target_pc_lt: BranchOffset::Offset(lt),
            target_pc_eq: BranchOffset::Offset(eq),
            target_pc_gt: BranchOffset::Offset(gt),
        }),
        a < b,
        val_at(s, a as int) is Some,
        val_at(s, b as int) is Some,
    ensures
        ({
            let o = value_cmp(val_at(s, a as int)->0, val_at(s, b as int)->0);
            let o_swapped = value_cmp(val_at(s, b as int)->0, val_at(s, a as int)->0);
            let t1 = insn_step(p, s, c, r);
            let t2 = insn_step(p, t1.state, t1.conn, ReplyView::Nothing);
            &&& run(p, s, c, r, STEP_FUEL as nat) == run(p, t2.state, t2.conn, ReplyView::Nothing, (STEP_FUEL - 2) as nat)
            &&& t2.state.pc == (if o < 0 { lt } else if o == 0 { eq } else { gt }) as int
            &&& t2.state.registers == s.registers
            &&& t2.state.last_compare is None
            &&& (o == 0 <==> o_swapped == 0)
            &&& (o < 0 <==> o_swapped > 0)
        }),
{
    lemma_compare_then_jump(p, s, c, r, ReplyView::Nothing, a, b, lt, eq, gt);
    reveal(insn_step);
    reveal(compare_insn);
    let t1 = insn_step(p, s, c, r);
    assert(t1.state.interrupted == s.interrupted);
    lemma_run_continues(p, s, c, r, STEP_FUEL as nat);
    lemma_run_continues(p, t1.state, t1.conn, ReplyView::Nothing, (STEP_FUEL - 1) as nat);
    crate::value::lemma_value_order(val_at(s, a as int)->0, val_at(s, b as int)->0);
}

/// At the level of `step`: finalizing an untouched aggregate continues as a
/// run from the next instruction with the register holding 0 (`count`),
/// 0.0 (`total`) or NULL (every other function).
pub proof fn lemma_step_final_of_untouched(p: Seq<Insn>, s: StateView, c: Connection, r: ReplyView, reg: usize, f: AggFunc)
    requires
        !s.interrupted,
        0 <= s.pc < p.len(),
        s.pc + 1 <= usize::MAX,
        p[s.pc] == (Insn::AggFinal { register: reg, func: f }),
        reg < s.registers.len(),
        s.registers[reg as int] == RegisterView::Value(ValueView::Null),
    ensures
        ({
            let t = insn_step(p, s, c, r);
            &&& run(p, s, c, r, STEP_FUEL as nat) == run(p, t.state, t.conn, ReplyView::Nothing, (STEP_FUEL - 1) as nat)
            &&& t.state.pc == s.pc + 1
            &&& t.state.registers[reg as int] == RegisterView::Value(
                if f == AggFunc::Count || f == AggFunc::Count0 {
                    ValueView::Integer(0)
                } else if f == AggFunc::Total {
                    real_zero()
                } else {
                    ValueView::Null
                },
            )
        }),
{
    lemma_final_of_untouched(p, s, c, r, reg, f);
    lemma_run_continues(p, s, c, r, STEP_FUEL as nat);
}

/// At the level of `step`: a read statement's `Transaction` from `Idle`
/// asks only for a read transaction, and once it is granted continues in
/// `Read` from the next instruction.
pub proof fn lemma_step_read_transaction(p: Seq<Insn>, s: StateView, c: Connection)
    requires
        !s.interrupted,
        0 <= s.pc < p.len(),
        p[s.pc] == (Insn::Transaction { write: false }),
        !s.read_begun,
        !c.mvcc,
        c.tx_state == TxState::Idle,
    ensures
        run(p, s, c, ReplyView::Nothing, STEP_FUEL as nat).outcome
            == Ok::<OutcomeView, VmError>(OutcomeView::Need(RequestView::BeginRead)),
        ({
            let t = insn_step(p, s, c, ReplyView::Ready);
            &&& run(p, s, c, ReplyView::Ready, STEP_FUEL as nat) == run(p, t.state, t.conn, ReplyView::Nothing, (STEP_FUEL - 1) as nat)
            &&& t.conn.tx_state == TxState::Read
            &&& t.state.pc == s.pc + 1
        }),
{
    lemma_transaction_escalation(p, s, c, ReplyView::Nothing, false);
    lemma_transaction_escalation(p, s, c, ReplyView::Ready, false);
    lemma_run_stops(p, s, c, ReplyView::Nothing, STEP_FUEL as nat);
    reveal(insn_step);
    reveal(transaction_insn);
    lemma_run_continues(p, s, c, ReplyView::Ready, STEP_FUEL as nat);
}

/// At the level of `step`: a `Yield` whose coroutine has not ended
/// continues as a run from the coroutine's saved address, with the register
/// holding the address after the `Yield`.
pub proof fn lemma_step_yield(p: Seq<Insn>, s: StateView, c: Connection, r: ReplyView, y: usize, e: BranchOffset, entry: i64)
    requires
        !s.interrupted,
        0 <= s.pc < p.len(),
        p.len() <= usize::MAX,
        s.pc + 1 <= i64::MAX,
        p[s.pc] == (Insn::Yield { yield_reg: y, end_offset: e }),
        val_at(s, y as int) == Some(ValueView::Integer(entry)),
        0 <= entry < p.len(),
        y < s.ended.len(),
        !s.ended[y as int],
    ensures
        ({
            let t = insn_step(p, s, c, r);
            &&& run(p, s, c, r, STEP_FUEL as nat) == run(p, t.state, t.conn, ReplyView::Nothing, (STEP_FUEL - 1) as nat)
            &&& t.state.pc == entry
            &&& val_at(t.state, y as int) == Some(ValueView::Integer((s.pc + 1) as i64))
        }),
{
    reveal(insn_step);
    reveal(yield_insn);
    lemma_run_continues(p, s, c, r, STEP_FUEL as nat);
}

/// At the level of `step`, call by call: a deferred seek first asks for
/// the index rowid, then for the table seek; a pending seek returns `IO`
/// and leaves the state as it was before the rowid was read, so the next
/// call starts over; a completed seek asks for the column, and the column
/// value lets the run go on from the next instruction with it in `dest` and
/// the deferral cleared.
pub proof fn lemma_step_deferred_seek(
    p: Seq<Insn>,
    s: StateView,
    c: Connection,
    cursor: usize,
    column: usize,
    dest: usize,
    index_cursor: usize,
    table_cursor: usize,
    rowid: i64,
    found: bool,
    v: ValueView,
)
    requires
        !s.interrupted,
        0 <= s.pc < p.len(),
        s.pc + 1 <= usize::MAX,
        p[s.pc] == (Insn::Column { cursor_id: cursor, column, dest }),
        dest < s.registers.len(),
        s.deferred_seek == Some((index_cursor, table_cursor)),
        s.deferred_rowid is None,
    ensures
        ({
            let f = STEP_FUEL as nat;
            let s1 = StateView { deferred_rowid: Some(rowid), ..s };
            let s2 = StateView { deferred_seek: None, deferred_rowid: None, ..s };
            let done = crate::vm::with_pc(crate::vm::with_reg(s2, dest as int, RegisterView::Value(v)), s.pc + 1);
            &&& run(p, s, c, ReplyView::Nothing, f) == crate::vm::need(s, c, RequestView::IndexRowId { cursor_id: index_cursor })
            &&& run(p, s, c, ReplyView::RowId(Some(rowid)), f) == crate::vm::need(s1, c, RequestView::SeekRowId { cursor_id: table_cursor, rowid })
            &&& run(p, s1, c, ReplyView::Pending, f) == crate::vm::stop(s, c, StepResult::IO)
            &&& run(p, s1, c, ReplyView::Found(found), f) == crate::vm::need(s2, c, RequestView::ReadColumn { cursor_id: cursor, column })
            &&& run(p, s2, c, ReplyView::Value(v), f) == run(p, done, c, ReplyView::Nothing, (f - 1) as nat)
        }),
{
    reveal(column_insn);
    reveal(resolve_deferred);
    let s1 = StateView { deferred_rowid: Some(rowid), ..s };
    let s2 = StateView { deferred_seek: None, deferred_rowid: None, ..s };
    lemma_column_step(p, s, c, ReplyView::Nothing, cursor, column, dest);
    lemma_column_step(p, s, c, ReplyView::RowId(Some(rowid)), cursor, column, dest);
    lemma_column_step(p, s1, c, ReplyView::Pending, cursor, column, dest);
    lemma_column_step(p, s1, c, ReplyView::Found(found), cursor, column, dest);
    lemma_column_step(p, s2, c, ReplyView::Value(v), cursor, column, dest);
    assert(StateView { deferred_rowid: None, ..s1 } == s);
    lemma_run_stops(p, s, c, ReplyView::Nothing, STEP_FUEL as nat);
    lemma_run_stops(p, s, c, ReplyView::RowId(Some(rowid)), STEP_FUEL as nat);
    lemma_run_stops(p, s1, c, ReplyView::Pending, STEP_FUEL as nat);
    lemma_run_stops(p, s1, c, ReplyView::Found(found), STEP_FUEL as nat);
    lemma_run_continues(p, s2, c, ReplyView::Value(v), STEP_FUEL as nat);
}

} // verus!
