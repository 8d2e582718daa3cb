//! The interpreter: one instruction at a time, and the loop around it.
use crate::program::{
    AggFunc, ArithOp, BranchOffset, CmpOp, CursorMove, Insn, PagerOp, Program, ScalarFunc, StorageOp,
};
use crate::state::{AggContext, Bitfield, Register, RegisterView, opt_view, values_view};
use crate::value::{Real, Value, ValueView, compare_values, copy_chars, text_form, value_cmp};
use crate::vm::{
    AggStepView, Connection, ask_value_insn, constant_insn, ask_branch_insn, sorter_data_insn, sorter_insert_insn, vcolumn_insn, vfilter_insn, counted_wait_insn, MAX_ROWID_ATTEMPTS, effect_insn, insert_insn, key_of, new_rowid_insn,
    seek_key_insn, concat_insn, offset_limit_insn, must_be_int_insn, zero_or_null_insn, decr_jump_zero_insn, gosub_insn, if_pos_insn, return_insn, Outcome, OutcomeView, ProgramState, Reply, Request, STEP_FUEL,
    StateView, StepResult, Transition, TxFault, TxState, VmError, agg_final_insn, agg_init,
    agg_matches, agg_step, agg_step_insn, arith_insn, arith_local, auto_commit_insn, await_insn,
    branch, cast_insn, cmp_holds, cmp_jumps, column_insn, compare_insn, compare_regs,
    end_coroutine_insn, extreme, function_insn, go_on, halt_seq, i64_fits, idx_holds, idx_insn,
    if_jumps, init_coroutine_insn, insn_step, jump_insn, jump_to, make_record_insn, move_insn,
    params_view, real_zero, regs_view, resolve_deferred, result_row_insn, rowid_insn, run,
    scalar_spec, seek_rowid_insn, store, transaction_insn, val_at, values_in, variable_insn,
    with_pc, with_reg, yield_insn,
};
use vstd::prelude::*;

verus! {

/// The view of an instruction's result.
pub open spec fn res_view(r: Result<Outcome, VmError>) -> Result<OutcomeView, VmError> {
    match r {
        Ok(o) => Ok(o@),
        Err(e) => Err(e),
    }
}

/// The executed transition is `t`.
pub open spec fn reaches(t: Transition, s: StateView, c: Connection, r: Result<Outcome, VmError>) -> bool {
    t.state == s && t.conn == c && t.outcome == res_view(r)
}

impl ProgramState {
    pub open spec fn wf(&self) -> bool {
        self.ended_coroutine.wf()
    }

    /// The value in register `i`, if it holds one.
    pub fn value_at(&self, i: usize) -> (r: Option<&Value>)
        ensures
            match r {
                Some(v) => val_at(self@, i as int) == Some(v@),
                None => val_at(self@, i as int) is None,
            },
    {
        if i < self.registers.len() {
            match &self.registers[i] {
                Register::OwnedValue(v) => Some(v),
                _ => None,
            }
        } else {
            None
        }
    }

    fn set_register(&mut self, i: usize, r: Register)
        requires
            i < old(self).registers.len(),
        ensures
            final(self)@ == with_reg(old(self)@, i as int, r@),
            final(self).ended_coroutine == old(self).ended_coroutine,
    {
        let ghost rv = r@;
        self.registers.set(i, r);
        assert(regs_view(self.registers@) =~= regs_view(old(self).registers@).update(i as int, rv));
    }

    /// Writes a value register and moves to the next instruction.
    fn store(&mut self, c: Connection, dest: usize, v: Value) -> (r: Result<Outcome, VmError>)
        requires
            old(self).pc < usize::MAX,
        ensures
            reaches(store(old(self)@, c, dest as int, v@), final(self)@, c, r),
            final(self).ended_coroutine == old(self).ended_coroutine,
    {
        if dest < self.registers.len() {
            self.set_register(dest, Register::OwnedValue(v));
            self.pc = self.pc + 1;
            Ok(Outcome::Next)
        } else {
            Err(VmError::Internal)
        }
    }

    /// Continues at a resolved jump target.
    fn jump(&mut self, c: Connection, t: BranchOffset) -> (r: Result<Outcome, VmError>)
        ensures
            reaches(jump_to(old(self)@, c, t), final(self)@, c, r),
            final(self).ended_coroutine == old(self).ended_coroutine,
    {
        match t {
            BranchOffset::Offset(o) => {
                self.pc = o as usize;
                Ok(Outcome::Next)
            },
            _ => Err(VmError::Internal),
        }
    }

    fn branch(&mut self, c: Connection, taken: bool, t: BranchOffset) -> (r: Result<Outcome, VmError>)
        requires
            old(self).pc < usize::MAX,
        ensures
            reaches(branch(old(self)@, c, taken, t), final(self)@, c, r),
            final(self).ended_coroutine == old(self).ended_coroutine,
    {
        if taken {
            self.jump(c, t)
        } else {
            self.pc = self.pc + 1;
            Ok(Outcome::Next)
        }
    }

    fn advance(&mut self, c: Connection) -> (r: Result<Outcome, VmError>)
        requires
            old(self).pc < usize::MAX,
        ensures
            reaches(go_on(with_pc(old(self)@, old(self)@.pc + 1), c), final(self)@, c, r),
            final(self).ended_coroutine == old(self).ended_coroutine,
    {
        self.pc = self.pc + 1;
        Ok(Outcome::Next)
    }
}

impl ProgramState {
    fn exec_arith(&mut self, c: Connection, r: &Reply, op: ArithOp, lhs: usize, rhs: usize, dest: usize) -> (res: Result<Outcome, VmError>)
        requires
            old(self).pc < usize::MAX,
        ensures
            reaches(arith_insn(old(self)@, c, r@, op, lhs as int, rhs as int, dest as int), final(self)@, c, res),
            final(self).ended_coroutine == old(self).ended_coroutine,
    {
        proof {
            reveal(arith_insn);
        }
        let local = match (self.value_at(lhs), self.value_at(rhs)) {
            (Some(a), Some(b)) => match arith_local_exec(op, a, b) {
                Some(v) => Ok(v),
                None => match r {
                    Reply::Value(v) => Ok(v.duplicate()),
                    _ => Err(Request::Arith { op, lhs: a.duplicate(), rhs: b.duplicate() }),
                },
            },
            _ => {
                return Err(VmError::Internal);
            },
        };
        match local {
            Ok(v) => self.store(c, dest, v),
            Err(q) => Ok(Outcome::Need(q)),
        }
    }

    fn exec_compare(&mut self, c: Connection, a: usize, b: usize, count: usize) -> (res: Result<Outcome, VmError>)
        requires
            old(self).pc < usize::MAX,
        ensures
            reaches(compare_insn(old(self)@, c, a as int, b as int, count as int), final(self)@, c, res),
            final(self).ended_coroutine == old(self).ended_coroutine,
    {
        proof {
            reveal(compare_insn);
        }
        let ghost s = self@;
        if count > b || a > b - count {
            return Err(VmError::Internal);
        }
        if count > 0 && (b >= self.registers.len() || count > self.registers.len() - b) {
            proof {
                let k = if b >= self.registers.len() { 0int } else { self.registers.len() - b };
                assert(val_at(s, b + k) is None);
            }
            return Err(VmError::Internal);
        }
        let mut k: usize = 0;
        while k < count
            invariant
                s == self@,
                k <= count,
                a + count <= b,
                count > 0 ==> b + count <= self.registers.len(),
                forall|j: int| 0 <= j < k ==> #[trigger] val_at(s, a + j) is Some && val_at(s, b + j) is Some,
            decreases count - k,
        {
            if self.value_at(a + k).is_none() || self.value_at(b + k).is_none() {
                proof {
                    reveal(compare_insn);
                    if val_at(s, a as int + k as int) is None {
                        assert(!values_in(s, a as int, count as int));
                    } else {
                        assert(val_at(s, b as int + k as int) is None);
                        assert(!values_in(s, b as int, count as int));
                    }
                }
                return Err(VmError::Internal);
            }
            k = k + 1;
        }
        assert(values_in(s, a as int, count as int)) by {
            assert forall|j: int| 0 <= j < count implies #[trigger] val_at(s, a + j) is Some by {
                assert(val_at(s, a + j) is Some && val_at(s, b + j) is Some);
            }
        }
        assert(values_in(s, b as int, count as int)) by {
            assert forall|j: int| 0 <= j < count implies #[trigger] val_at(s, b + j) is Some by {
                assert(val_at(s, a + j) is Some && val_at(s, b + j) is Some);
            }
        }
        let mut i: usize = 0;
        let mut found = false;
        let mut out: i8 = 0;
        while i < count
            invariant
                s == self@,
                i <= count,
                a + count <= b,
                count > 0 ==> b + count <= self.registers.len(),
                values_in(s, a as int, count as int),
                values_in(s, b as int, count as int),
                found ==> out as int == compare_regs(s, a as int, b as int, count as int, 0) && i == count,
                !found ==> compare_regs(s, a as int, b as int, count as int, 0) == compare_regs(s, a as int, b as int, count as int, i as int),
                !found ==> (i < count || count == 0),
            decreases count - i,
        {
            assert(val_at(s, a + i) is Some);
            assert(val_at(s, b + i) is Some);
            let x = self.value_at(a + i).unwrap();
            let y = self.value_at(b + i).unwrap();
            let ci = compare_values(x, y);
            if ci != 0 || i + 1 >= count {
                out = ci;
                found = true;
                i = count;
            } else {
                i = i + 1;
            }
        }
        self.last_compare = if count == 0 { None } else { Some(out) };
        self.pc = self.pc + 1;
        Ok(Outcome::Next)
    }

    fn exec_jump(&mut self, c: Connection, lt: BranchOffset, eq: BranchOffset, gt: BranchOffset) -> (res: Result<Outcome, VmError>)
        ensures
            reaches(jump_insn(old(self)@, c, lt, eq, gt), final(self)@, c, res),
            final(self).ended_coroutine == old(self).ended_coroutine,
    {
        proof {
            reveal(jump_insn);
        }
        match self.last_compare {
            None => Err(VmError::Internal),
            Some(o) => {
                self.last_compare = None;
                let t = if o < 0 { lt } else if o == 0 { eq } else { gt };
                self.jump(c, t)
            },
        }
    }

    fn exec_cmp(&mut self, c: Connection, op: CmpOp, lhs: usize, rhs: usize, t: BranchOffset, jump_if_null: bool, null_eq: bool) -> (res: Result<Outcome, VmError>)
        requires
            old(self).pc < usize::MAX,
        ensures
            reaches(
                match (val_at(old(self)@, lhs as int), val_at(old(self)@, rhs as int)) {
                    (Some(a), Some(b)) => branch(old(self)@, c, cmp_jumps(op, a, b, jump_if_null, null_eq), t),
                    _ => crate::vm::fail(old(self)@, c, VmError::Internal),
                },
                final(self)@, c, res),
            final(self).ended_coroutine == old(self).ended_coroutine,
    {
        proof {
            reveal(cmp_jumps);
        }
        let taken = match (self.value_at(lhs), self.value_at(rhs)) {
            (Some(a), Some(b)) => {
                let an = matches!(a, Value::Null);
                let bn = matches!(b, Value::Null);
                if an || bn {
                    if null_eq && matches!(op, CmpOp::Eq) {
                        an && bn
                    } else if null_eq && matches!(op, CmpOp::Ne) {
                        !(an && bn)
                    } else {
                        jump_if_null
                    }
                } else {
                    let o = compare_values(a, b);
                    match op {
                        CmpOp::Eq => o == 0,
                        CmpOp::Ne => o != 0,
                        CmpOp::Lt => o < 0,
                        CmpOp::Le => o <= 0,
                        CmpOp::Gt => o > 0,
                        CmpOp::Ge => o >= 0,
                    }
                }
            },
            _ => {
                return Err(VmError::Internal);
            },
        };
        self.branch(c, taken, t)
    }
}

impl ProgramState {
    fn exec_init_coroutine(&mut self, c: Connection, y: usize, jod: BranchOffset, so: BranchOffset) -> (res: Result<Outcome, VmError>)
        requires
            old(self).wf(),
            old(self).pc < usize::MAX,
        ensures
            reaches(init_coroutine_insn(old(self)@, c, y as int, jod, so), final(self)@, c, res),
            final(self).wf(),
    {
        proof {
            reveal(init_coroutine_insn);
        }
        let (j, st) = match (jod, so) {
            (BranchOffset::Offset(j), BranchOffset::Offset(st)) => (j, st),
            _ => {
                return Err(VmError::Internal);
            },
        };
        if y >= self.registers.len() || y >= self.ended_coroutine.capacity() {
            return Err(VmError::Internal);
        }
        let ghost ended0 = self.ended_coroutine.view();
        self.set_register(y, Register::OwnedValue(Value::Integer(st as i64)));
        self.ended_coroutine.unset(y);
        assert(self.ended_coroutine.view() =~= ended0.update(y as int, false));
        self.pc = if j == 0 { self.pc + 1 } else { j as usize };
        Ok(Outcome::Next)
    }

    fn exec_end_coroutine(&mut self, c: Connection, y: usize) -> (res: Result<Outcome, VmError>)
        requires
            old(self).wf(),
        ensures
            reaches(end_coroutine_insn(old(self)@, c, y as int), final(self)@, c, res),
            final(self).wf(),
    {
        proof {
            reveal(end_coroutine_insn);
        }
        let p = match self.value_at(y) {
            Some(Value::Integer(p)) => *p,
            _ => {
                return Err(VmError::Internal);
            },
        };
        if p < 1 || (p - 1) as u64 > usize::MAX as u64 || y >= self.ended_coroutine.capacity() {
            return Err(VmError::Internal);
        }
        let ghost ended0 = self.ended_coroutine.view();
        self.ended_coroutine.set(y);
        assert(self.ended_coroutine.view() =~= ended0.update(y as int, true));
        self.pc = (p - 1) as usize;
        Ok(Outcome::Next)
    }

    fn exec_yield(&mut self, c: Connection, y: usize, end: BranchOffset) -> (res: Result<Outcome, VmError>)
        requires
            old(self).wf(),
        ensures
            reaches(yield_insn(old(self)@, c, y as int, end), final(self)@, c, res),
            final(self).wf(),
    {
        proof {
            reveal(yield_insn);
        }
        let p = match self.value_at(y) {
            Some(Value::Integer(p)) => *p,
            _ => {
                return Err(VmError::Internal);
            },
        };
        if y >= self.ended_coroutine.capacity() {
            return Err(VmError::Internal);
        }
        if self.ended_coroutine.get(y) {
            return self.jump(c, end);
        }
        if p < 0 || p as u64 > usize::MAX as u64 || self.pc as u64 >= i64::MAX as u64 {
            return Err(VmError::Internal);
        }
        let resume = (self.pc as u64 + 1) as i64;
        self.set_register(y, Register::OwnedValue(Value::Integer(resume)));
        self.pc = p as usize;
        Ok(Outcome::Next)
    }

    fn exec_transaction(&mut self, conn: &mut Connection, r: &Reply, write: bool) -> (res: Result<Outcome, VmError>)
        requires
            old(self).pc < usize::MAX,
        ensures
            reaches(transaction_insn(old(self)@, *old(conn), r@, write), final(self)@, *final(conn), res),
            final(self).ended_coroutine == old(self).ended_coroutine,
    {
        proof {
            reveal(transaction_insn);
        }
        let cur = conn.tx_state;
        let target = if write || matches!(cur, TxState::Write) { TxState::Write } else { TxState::Read };
        if conn.mvcc {
            if self.mv_tx_id.is_some() {
                self.pc = self.pc + 1;
                return Ok(Outcome::Next);
            }
            return match r {
                Reply::RowId(Some(id)) => {
                    self.mv_tx_id = Some(*id);
                    self.pc = self.pc + 1;
                    Ok(Outcome::Next)
                },
                _ => Ok(Outcome::Need(Request::BeginMvTx)),
            };
        }
        if target == cur {
            self.pc = self.pc + 1;
            return Ok(Outcome::Next);
        }
        if matches!(cur, TxState::Idle) && !self.read_begun {
            match r {
                Reply::Ready => {
                    if matches!(target, TxState::Read) {
                        conn.tx_state = TxState::Read;
                        self.pc = self.pc + 1;
                        Ok(Outcome::Next)
                    } else {
                        self.read_begun = true;
                        Ok(Outcome::Need(Request::BeginWrite))
                    }
                },
                Reply::Busy => Ok(Outcome::Stop(StepResult::Busy)),
                _ => Ok(Outcome::Need(Request::BeginRead)),
            }
        } else {
            match r {
                Reply::Ready => {
                    self.read_begun = false;
                    conn.tx_state = TxState::Write;
                    self.pc = self.pc + 1;
                    Ok(Outcome::Next)
                },
                Reply::Busy => {
                    self.read_begun = false;
                    Ok(Outcome::Stop(StepResult::Busy))
                },
                _ => Ok(Outcome::Need(Request::BeginWrite)),
            }
        }
    }

    fn exec_halt(&mut self, conn: &mut Connection, r: &Reply) -> (res: Result<Outcome, VmError>)
        ensures
            reaches(halt_seq(old(self)@, *old(conn), r@), final(self)@, *final(conn), res),
            final(self).ended_coroutine == old(self).ended_coroutine,
    {
        proof {
            reveal(halt_seq);
        }
        if conn.mvcc {
            if conn.auto_commit {
                match r {
                    Reply::Ready => Ok(Outcome::Stop(StepResult::Done)),
                    _ => Ok(Outcome::Need(Request::CommitMvTxs)),
                }
            } else {
                Ok(Outcome::Stop(StepResult::Done))
            }
        } else if self.checkpointing || (conn.auto_commit && matches!(conn.tx_state, TxState::Write)) {
            match r {
                Reply::Ready => {
                    self.checkpointing = false;
                    conn.tx_state = TxState::Idle;
                    if self.count_changes {
                        conn.changes = self.n_change;
                    }
                    Ok(Outcome::Stop(StepResult::Done))
                },
                Reply::Pending => {
                    self.checkpointing = true;
                    Ok(Outcome::Stop(StepResult::IO))
                },
                _ => Ok(Outcome::Need(Request::EndTx)),
            }
        } else if conn.auto_commit && matches!(conn.tx_state, TxState::Read) {
            match r {
                Reply::Ready => {
                    conn.tx_state = TxState::Idle;
                    Ok(Outcome::Stop(StepResult::Done))
                },
                _ => Ok(Outcome::Need(Request::EndRead)),
            }
        } else {
            if !conn.auto_commit && self.count_changes {
                conn.changes = self.n_change;
            }
            Ok(Outcome::Stop(StepResult::Done))
        }
    }

    fn exec_auto_commit(&mut self, conn: &mut Connection, r: &Reply, ac: bool, rollback: bool) -> (res: Result<Outcome, VmError>)
        ensures
            reaches(auto_commit_insn(old(self)@, *old(conn), r@, ac, rollback), final(self)@, *final(conn), res),
            final(self).ended_coroutine == old(self).ended_coroutine,
    {
        proof {
            reveal(auto_commit_insn);
        }
        if self.checkpointing {
            self.exec_halt(conn, r)
        } else if ac != conn.auto_commit {
            if rollback {
                Err(VmError::Tx(TxFault::RollbackUnsupported))
            } else {
                conn.auto_commit = ac;
                self.exec_halt(conn, r)
            }
        } else if !ac {
            Err(VmError::Tx(TxFault::NestedBegin))
        } else if rollback {
            Err(VmError::Tx(TxFault::NoTxRollback))
        } else {
            Err(VmError::Tx(TxFault::NoTxCommit))
        }
    }
}

/// The REAL zero, `0.0`.
pub fn real_zero_value() -> (r: Value)
    ensures
        r@ == real_zero(),
{
    let mut t: Vec<char> = Vec::new();
    t.push('0');
    t.push('.');
    t.push('0');
    assert(t@ =~= seq!['0', '.', '0']);
    Value::Float(Real { bits: 0, text: t })
}

fn agg_init_exec(f: AggFunc) -> (r: AggContext)
    ensures
        r@ == agg_init(f),
{
    match f {
        AggFunc::Avg => AggContext::Avg(real_zero_value(), 0),
        AggFunc::Sum => AggContext::Sum(Value::Null),
        AggFunc::Total => AggContext::Sum(real_zero_value()),
        AggFunc::Count => AggContext::Count(0),
        AggFunc::Count0 => AggContext::Count(0),
        AggFunc::Max => AggContext::Max(None),
        AggFunc::Min => AggContext::Min(None),
        AggFunc::GroupConcat => AggContext::GroupConcat(Vec::new()),
    }
}

fn agg_matches_exec(f: AggFunc, a: &AggContext) -> (r: bool)
    ensures
        r == agg_matches(f, a@),
{
    match f {
        AggFunc::Avg => matches!(a, AggContext::Avg(_, _)),
        AggFunc::Sum => matches!(a, AggContext::Sum(_)),
        AggFunc::Total => matches!(a, AggContext::Sum(_)),
        AggFunc::Count => matches!(a, AggContext::Count(_)),
        AggFunc::Count0 => matches!(a, AggContext::Count(_)),
        AggFunc::Max => matches!(a, AggContext::Max(_)),
        AggFunc::Min => matches!(a, AggContext::Min(_)),
        AggFunc::GroupConcat => matches!(a, AggContext::GroupConcat(_)),
    }
}

fn dup_opt(o: &Option<Value>) -> (r: Option<Value>)
    ensures
        opt_view(r) == opt_view(*o),
{
    match o {
        Some(v) => Some(v.duplicate()),
        None => None,
    }
}

fn dup_agg(a: &AggContext) -> (r: AggContext)
    ensures
        r@ == a@,
{
    match a {
        AggContext::Avg(s, n) => AggContext::Avg(s.duplicate(), *n),
        AggContext::Sum(s) => AggContext::Sum(s.duplicate()),
        AggContext::Count(n) => AggContext::Count(*n),
        AggContext::Max(o) => AggContext::Max(dup_opt(o)),
        AggContext::Min(o) => AggContext::Min(dup_opt(o)),
        AggContext::GroupConcat(t) => AggContext::GroupConcat(copy_chars(t)),
    }
}

/// Appends `src` to `dst`.
pub fn append_chars(dst: &mut Vec<char>, src: &Vec<char>)
    ensures
        final(dst)@ == old(dst)@ + src@,
{
    let mut i: usize = 0;
    while i < src.len()
        invariant
            i <= src.len(),
            dst@ == old(dst)@ + src@.subrange(0, i as int),
        decreases src.len() - i,
    {
        dst.push(src[i]);
        i = i + 1;
        assert(dst@ =~= old(dst)@ + src@.subrange(0, i as int));
    }
    assert(src@.subrange(0, src.len() as int) =~= src@);
}

fn extreme_exec(cur: &Option<Value>, v: &Value, want_max: bool) -> (r: Option<Value>)
    ensures
        opt_view(r) == extreme(opt_view(*cur), v@, if want_max { 1 } else { -1 }),
{
    match cur {
        None => Some(v.duplicate()),
        Some(m) => {
            let o: i8 = match (m, v) {
                (Value::Integer(x), Value::Integer(y)) => if *y < *x { -1 } else if *y == *x { 0 } else { 1 },
                (Value::Float(_), Value::Float(_)) | (Value::Text(_), Value::Text(_)) => {
                    let o = compare_values(v, m);
                    proof {
                        crate::value::lemma_value_order(v@, m@);
                    }
                    o
                },
                _ => 2,
            };
            if (want_max && o == 1) || (!want_max && o == -1) {
                Some(v.duplicate())
            } else {
                Some(m.duplicate())
            }
        },
    }
}

/// One accumulation step: the new accumulator, `Err(Some(..))` when the
/// host must add the two values, `Err(None)` on overflow.
fn agg_step_exec(f: AggFunc, a: &AggContext, v: &Value, delim: &Value, r: &Reply) -> (res: Result<AggContext, Option<(Value, Value)>>)
    ensures
        match agg_step(f, a@, v@, delim@, r@) {
            AggStepView::Acc(a2) => res is Ok && res->Ok_0@ == a2,
            AggStepView::Host(x, y) => res is Err && res->Err_0 is Some && (res->Err_0->0).0@ == x && (res->Err_0->0).1@ == y,
            AggStepView::Overflow => res is Err && res->Err_0 is None,
        },
{
    match a {
        AggContext::Avg(sum, n) => {
            if *n == i64::MAX {
                Err(None)
            } else {
                match r {
                    Reply::Value(x) => Ok(AggContext::Avg(x.duplicate(), *n + 1)),
                    _ => Err(Some((sum.duplicate(), v.duplicate()))),
                }
            }
        },
        AggContext::Sum(acc) => match (acc, v) {
            (_, Value::Null) => Ok(dup_agg(a)),
            (Value::Null, Value::Integer(y)) => Ok(AggContext::Sum(Value::Integer(*y))),
            (Value::Integer(x), Value::Integer(y)) => {
                let z = *x as i128 + *y as i128;
                if fits(z) {
                    Ok(AggContext::Sum(Value::Integer(z as i64)))
                } else {
                    Err(None)
                }
            },
            _ => match r {
                Reply::Value(x) => Ok(AggContext::Sum(x.duplicate())),
                _ => Err(Some((acc.duplicate(), v.duplicate()))),
            },
        },
        AggContext::Count(n) => {
            if matches!(f, AggFunc::Count) && matches!(v, Value::Null) {
                Ok(AggContext::Count(*n))
            } else if *n == i64::MAX {
                Err(None)
            } else {
                Ok(AggContext::Count(*n + 1))
            }
        },
        AggContext::Max(m) => Ok(AggContext::Max(extreme_exec(m, v, true))),
        AggContext::Min(m) => Ok(AggContext::Min(extreme_exec(m, v, false))),
        AggContext::GroupConcat(t) => {
            if t.len() == 0 {
                Ok(AggContext::GroupConcat(v.to_text()))
            } else {
                let mut out = copy_chars(t);
                append_chars(&mut out, &delim.to_text());
                append_chars(&mut out, &v.to_text());
                Ok(AggContext::GroupConcat(out))
            }
        },
    }
}

impl ProgramState {
    fn exec_agg_step(&mut self, c: Connection, r: &Reply, acc: usize, col: usize, delim: usize, f: AggFunc) -> (res: Result<Outcome, VmError>)
        requires
            old(self).pc < usize::MAX,
        ensures
            reaches(agg_step_insn(old(self)@, c, r@, acc as int, col as int, delim as int, f), final(self)@, c, res),
            final(self).ended_coroutine == old(self).ended_coroutine,
    {
        proof {
            reveal(agg_step_insn);
        }
        if acc >= self.registers.len() {
            return Err(VmError::Internal);
        }
        let step = match (self.value_at(col), self.value_at(delim)) {
            (Some(v), Some(d)) => {
                let start = match &self.registers[acc] {
                    Register::OwnedValue(Value::Null) => {
                        if (matches!(f, AggFunc::Max) || matches!(f, AggFunc::Min))
                            && !(matches!(v, Value::Integer(_)) || matches!(v, Value::Float(_)) || matches!(v, Value::Text(_))) {
                            return Err(VmError::Internal);
                        }
                        agg_init_exec(f)
                    },
                    Register::Aggregate(a) => {
                        if !agg_matches_exec(f, a) {
                            return Err(VmError::Internal);
                        }
                        dup_agg(a)
                    },
                    _ => {
                        return Err(VmError::Internal);
                    },
                };
                agg_step_exec(f, &start, v, d, r)
            },
            _ => {
                return Err(VmError::Internal);
            },
        };
        match step {
            Ok(a2) => {
                self.set_register(acc, Register::Aggregate(a2));
                self.pc = self.pc + 1;
                Ok(Outcome::Next)
            },
            Err(Some((x, y))) => Ok(Outcome::Need(Request::Arith { op: ArithOp::Add, lhs: x, rhs: y })),
            Err(None) => Err(VmError::IntegerOverflow),
        }
    }

    fn exec_agg_final(&mut self, c: Connection, r: &Reply, reg: usize, f: AggFunc) -> (res: Result<Outcome, VmError>)
        requires
            old(self).pc < usize::MAX,
        ensures
            reaches(agg_final_insn(old(self)@, c, r@, reg as int, f), final(self)@, c, res),
            final(self).ended_coroutine == old(self).ended_coroutine,
    {
        proof {
            reveal(agg_final_insn);
        }
        if reg >= self.registers.len() {
            return Err(VmError::Internal);
        }
        let v = match &self.registers[reg] {
            Register::Aggregate(a) => {
                if !agg_matches_exec(f, a) {
                    return Err(VmError::Internal);
                }
                match a {
                    AggContext::Avg(sum, n) => match r {
                        Reply::Value(x) => x.duplicate(),
                        _ => {
                            return Ok(Outcome::Need(Request::Arith { op: ArithOp::Divide, lhs: sum.duplicate(), rhs: Value::Integer(*n) }));
                        },
                    },
                    AggContext::Sum(acc) => match acc {
                        Value::Integer(_) | Value::Float(_) => acc.duplicate(),
                        _ => real_zero_value(),
                    },
                    AggContext::Count(n) => Value::Integer(*n),
                    AggContext::Max(m) | AggContext::Min(m) => match m {
                        Some(x) => x.duplicate(),
                        None => Value::Null,
                    },
                    AggContext::GroupConcat(t) => Value::Text(copy_chars(t)),
                }
            },
            Register::OwnedValue(Value::Null) => match f {
                AggFunc::Total => real_zero_value(),
                AggFunc::Count | AggFunc::Count0 => Value::Integer(0),
                _ => Value::Null,
            },
            _ => {
                return Err(VmError::Internal);
            },
        };
        self.store(c, reg, v)
    }

    fn exec_result_row(&mut self, c: Connection, start: usize, count: usize) -> (res: Result<Outcome, VmError>)
        requires
            old(self).pc < usize::MAX,
        ensures
            reaches(result_row_insn(old(self)@, c, start as int, count as int), final(self)@, c, res),
            final(self).ended_coroutine == old(self).ended_coroutine,
    {
        proof {
            reveal(result_row_insn);
        }
        let ghost s = self@;
        if count > 0 && (start >= self.registers.len() || count > self.registers.len() - start) {
            proof {
                let k = if start >= self.registers.len() { 0int } else { self.registers.len() - start };
                assert(val_at(s, start + k) is None);
            }
            return Err(VmError::Internal);
        }
        let mut row: Vec<Value> = Vec::new();
        let mut k: usize = 0;
        while k < count
            invariant
                s == self@,
                k <= count,
                count > 0 ==> start + count <= self.registers.len(),
                row@.len() == k,
                forall|j: int| 0 <= j < k ==> #[trigger] val_at(s, start + j) is Some && row@[j]@ == val_at(s, start + j)->0,
            decreases count - k,
        {
            match self.value_at(start + k) {
                Some(v) => row.push(v.duplicate()),
                None => {
                    proof {
                        reveal(result_row_insn);
                        assert(val_at(s, start as int + k as int) is None);
                        assert(!values_in(s, start as int, count as int));
                    }
                    return Err(VmError::Internal);
                },
            }
            k = k + 1;
        }
        assert(values_in(s, start as int, count as int));
        assert(values_view(row@) =~= Seq::new(count as nat, |j: int| val_at(s, start + j)->0));
        self.result_row = Some(row);
        self.pc = self.pc + 1;
        Ok(Outcome::Stop(StepResult::Row))
    }
}

impl ProgramState {
    fn exec_seek_rowid(&mut self, c: Connection, r: &Reply, cursor: usize, src: usize, t: BranchOffset) -> (res: Result<Outcome, VmError>)
        requires
            old(self).pc < usize::MAX,
        ensures
            reaches(seek_rowid_insn(old(self)@, c, r@, cursor, src as int, t), final(self)@, c, res),
            final(self).ended_coroutine == old(self).ended_coroutine,
    {
        proof {
            reveal(seek_rowid_insn);
        }
        let rowid = match self.value_at(src) {
            Some(Value::Null) => {
                return self.jump(c, t);
            },
            Some(Value::Integer(id)) => *id,
            _ => {
                return Err(VmError::Internal);
            },
        };
        match r {
            Reply::Found(true) => {
                self.pc = self.pc + 1;
                Ok(Outcome::Next)
            },
            Reply::Found(false) => self.jump(c, t),
            Reply::Pending => Ok(Outcome::Stop(StepResult::IO)),
            _ => Ok(Outcome::Need(Request::SeekRowId { cursor_id: cursor, rowid })),
        }
    }

    /// Works on an armed deferred seek; `None` when none is armed.
    fn exec_deferred(&mut self, c: Connection, r: &Reply) -> (res: Option<Result<Outcome, VmError>>)
        ensures
            match resolve_deferred(old(self)@, c, r@) {
                None => res is None && *final(self) == *old(self),
                Some(t) => res is Some && reaches(t, final(self)@, c, res->0),
            },
            final(self).ended_coroutine == old(self).ended_coroutine,
    {
        proof {
            reveal(resolve_deferred);
        }
        match self.deferred_seek {
            None => None,
            Some((index_cursor, table_cursor)) => Some(match self.deferred_rowid {
                None => match r {
                    Reply::RowId(Some(rowid)) => {
                        self.deferred_rowid = Some(*rowid);
                        Ok(Outcome::Need(Request::SeekRowId { cursor_id: table_cursor, rowid: *rowid }))
                    },
                    Reply::RowId(None) => Err(VmError::Internal),
                    _ => Ok(Outcome::Need(Request::IndexRowId { cursor_id: index_cursor })),
                },
                Some(rowid) => match r {
                    Reply::Found(_) => {
                        self.deferred_seek = None;
                        self.deferred_rowid = None;
                        Ok(Outcome::Next)
                    },
                    Reply::Pending => {
                        self.deferred_rowid = None;
                        Ok(Outcome::Stop(StepResult::IO))
                    },
                    _ => Ok(Outcome::Need(Request::SeekRowId { cursor_id: table_cursor, rowid })),
                },
            }),
        }
    }

    fn exec_column(&mut self, c: Connection, r: &Reply, cursor: usize, column: usize, dest: usize) -> (res: Result<Outcome, VmError>)
        requires
            old(self).pc < usize::MAX,
        ensures
            reaches(column_insn(old(self)@, c, r@, cursor, column, dest as int), final(self)@, c, res),
            final(self).ended_coroutine == old(self).ended_coroutine,
    {
        proof {
            reveal(column_insn);
        }
        match self.exec_deferred(c, r) {
            Some(Ok(Outcome::Next)) => Ok(Outcome::Need(Request::ReadColumn { cursor_id: cursor, column })),
            Some(other) => other,
            None => match r {
                Reply::Value(v) => self.store(c, dest, v.duplicate()),
                _ => Ok(Outcome::Need(Request::ReadColumn { cursor_id: cursor, column })),
            },
        }
    }

    fn exec_rowid(&mut self, c: Connection, r: &Reply, cursor: usize, dest: usize) -> (res: Result<Outcome, VmError>)
        requires
            old(self).pc < usize::MAX,
        ensures
            reaches(rowid_insn(old(self)@, c, r@, cursor, dest as int), final(self)@, c, res),
            final(self).ended_coroutine == old(self).ended_coroutine,
    {
        proof {
            reveal(rowid_insn);
        }
        match self.exec_deferred(c, r) {
            Some(Ok(Outcome::Next)) => Ok(Outcome::Need(Request::ReadRowId { cursor_id: cursor })),
            Some(other) => other,
            None => match r {
                Reply::RowId(Some(id)) => self.store(c, dest, Value::Integer(*id)),
                Reply::RowId(None) => self.store(c, dest, Value::Null),
                _ => Ok(Outcome::Need(Request::ReadRowId { cursor_id: cursor })),
            },
        }
    }

    fn exec_variable(&mut self, c: Connection, index: usize, dest: usize) -> (res: Result<Outcome, VmError>)
        requires
            old(self).pc < usize::MAX,
        ensures
            reaches(variable_insn(old(self)@, c, index as int, dest as int), final(self)@, c, res),
            final(self).ended_coroutine == old(self).ended_coroutine,
    {
        proof {
            reveal(variable_insn);
        }
        if index >= 1 && index <= self.parameters.len() {
            match &self.parameters[index - 1] {
                Some(v) => {
                    let v = v.duplicate();
                    return self.store(c, dest, v);
                },
                None => {},
            }
        }
        Err(VmError::Unbound(index))
    }
}

impl Program {
    fn exec_group_a(&self, state: &mut ProgramState, conn: &mut Connection, r: &Reply) -> (res: Result<Outcome, VmError>)
        requires
            old(state).wf(),
            old(state).pc < self.insns@.len(),
            ({
                let i = self.insns@[old(state).pc as int];
                i is Init || i is Goto || i is Noop || i is Integer || i is Null || i is Copy || i is Arith || i is Compare || i is Jump || i is Cmp
            }),
        ensures
            reaches(insn_step(self.insns@, old(state)@, *old(conn), r@), final(state)@, *final(conn), res),
            final(state).wf(),
    {
        proof {
            reveal(insn_step);
        }
        let n = self.insns.len();
        assert(state.pc < usize::MAX);
        let c = *conn;
        let insn = self.insns[state.pc];
        match insn {
            Insn::Init { target_pc } => state.jump(c, target_pc),
            Insn::Goto { target_pc } => state.jump(c, target_pc),
            Insn::Noop => state.advance(c),
            Insn::Integer { value, dest } => state.store(c, dest, Value::Integer(value)),
            Insn::Null { dest } => state.store(c, dest, Value::Null),
            Insn::Copy { src_reg, dst_reg } => {
                let v = match state.value_at(src_reg) {
                    Some(v) => v.duplicate(),
                    None => {
                        return Err(VmError::Internal);
                    },
                };
                state.store(c, dst_reg, v)
            },
            Insn::Arith { op, lhs, rhs, dest } => state.exec_arith(c, r, op, lhs, rhs, dest),
            Insn::Compare { start_reg_a, start_reg_b, count } => state.exec_compare(c, start_reg_a, start_reg_b, count),
            Insn::Jump { target_pc_lt, target_pc_eq, target_pc_gt } => state.exec_jump(c, target_pc_lt, target_pc_eq, target_pc_gt),
            Insn::Cmp { op, lhs, rhs, target_pc, jump_if_null, null_eq } => state.exec_cmp(c, op, lhs, rhs, target_pc, jump_if_null, null_eq),
            _ => unreached(),
        }
    }

    fn exec_group_b(&self, state: &mut ProgramState, conn: &mut Connection, r: &Reply) -> (res: Result<Outcome, VmError>)
        requires
            old(state).wf(),
            old(state).pc < self.insns@.len(),
            ({
                let i = self.insns@[old(state).pc as int];
                i is If || i is IfNot || i is IsNull || i is NotNull || i is InitCoroutine || i is Yield || i is EndCoroutine || i is DeferredSeek || i is Variable || i is Cast || i is Function
            }),
        ensures
            reaches(insn_step(self.insns@, old(state)@, *old(conn), r@), final(state)@, *final(conn), res),
            final(state).wf(),
    {
        proof {
            reveal(insn_step);
        }
        let n = self.insns.len();
        assert(state.pc < usize::MAX);
        let c = *conn;
        let insn = self.insns[state.pc];
        match insn {
            Insn::If { reg, target_pc, jump_if_null } => {
                let taken = match state.value_at(reg) {
                    Some(v) => exec_if(v, jump_if_null, false),
                    None => {
                        return Err(VmError::Internal);
                    },
                };
                state.branch(c, taken, target_pc)
            },
            Insn::IfNot { reg, target_pc, jump_if_null } => {
                let taken = match state.value_at(reg) {
                    Some(v) => exec_if(v, jump_if_null, true),
                    None => {
                        return Err(VmError::Internal);
                    },
                };
                state.branch(c, taken, target_pc)
            },
            Insn::IsNull { reg, target_pc } => {
                let taken = match state.value_at(reg) {
                    Some(v) => matches!(v, Value::Null),
                    None => {
                        return Err(VmError::Internal);
                    },
                };
                state.branch(c, taken, target_pc)
            },
            Insn::NotNull { reg, target_pc } => {
                let taken = match state.value_at(reg) {
                    Some(v) => !matches!(v, Value::Null),
                    None => {
                        return Err(VmError::Internal);
                    },
                };
                state.branch(c, taken, target_pc)
            },
            Insn::InitCoroutine { yield_reg, jump_on_definition, start_offset } => state.exec_init_coroutine(c, yield_reg, jump_on_definition, start_offset),
            Insn::Yield { yield_reg, end_offset } => state.exec_yield(c, yield_reg, end_offset),
            Insn::EndCoroutine { yield_reg } => state.exec_end_coroutine(c, yield_reg),
            Insn::DeferredSeek { index_cursor_id, table_cursor_id } => {
                state.deferred_seek = Some((index_cursor_id, table_cursor_id));
                state.deferred_rowid = None;
                state.advance(c)
            },
            Insn::Variable { index, dest } => state.exec_variable(c, index, dest),
            Insn::Cast { reg, affinity } => state.exec_cast_insn(c, r, reg, affinity),
            Insn::Function { func, start_reg, arg_count, dest } => state.exec_function(c, func, start_reg, arg_count, dest),
            _ => unreached(),
        }
    }

    fn exec_group_c(&self, state: &mut ProgramState, conn: &mut Connection, r: &Reply) -> (res: Result<Outcome, VmError>)
        requires
            old(state).wf(),
            old(state).pc < self.insns@.len(),
            ({
                let i = self.insns@[old(state).pc as int];
                i is Transaction || i is AutoCommit || i is Halt || i is AggStep || i is AggFinal || i is ResultRow || i is MakeRecord || i is SeekRowid || i is Column || i is RowId
            }),
        ensures
            reaches(insn_step(self.insns@, old(state)@, *old(conn), r@), final(state)@, *final(conn), res),
            final(state).wf(),
    {
        proof {
            reveal(insn_step);
        }
        let n = self.insns.len();
        assert(state.pc < usize::MAX);
        let c = *conn;
        let insn = self.insns[state.pc];
        match insn {
            Insn::Transaction { write } => state.exec_transaction(conn, r, write),
            Insn::AutoCommit { auto_commit, rollback } => state.exec_auto_commit(conn, r, auto_commit, rollback),
            Insn::Halt { err_code, description } => {
                if err_code != 0 {
                    Err(VmError::Constraint { code: err_code, description })
                } else {
                    state.exec_halt(conn, r)
                }
            },
            Insn::AggStep { acc_reg, col, delimiter, func } => state.exec_agg_step(c, r, acc_reg, col, delimiter, func),
            Insn::AggFinal { register, func } => state.exec_agg_final(c, r, register, func),
            Insn::ResultRow { start_reg, count } => state.exec_result_row(c, start_reg, count),
            Insn::MakeRecord { start_reg, count, dest_reg } => state.exec_make_record(c, start_reg, count, dest_reg),
            Insn::SeekRowid { cursor_id, src_reg, target_pc } => state.exec_seek_rowid(c, r, cursor_id, src_reg, target_pc),
            Insn::Column { cursor_id, column, dest } => state.exec_column(c, r, cursor_id, column, dest),
            Insn::RowId { cursor_id, dest } => state.exec_rowid(c, r, cursor_id, dest),
            _ => unreached(),
        }
    }

    fn exec_group_d(&self, state: &mut ProgramState, conn: &mut Connection, r: &Reply) -> (res: Result<Outcome, VmError>)
        requires
            old(state).wf(),
            old(state).pc < self.insns@.len(),
            ({
                let i = self.insns@[old(state).pc as int];
                i is RewindAsync || i is NextAsync || i is RewindAwait || i is NextAwait || i is IdxGE || i is IdxGT || i is IdxLE || i is IdxLT
            }),
        ensures
            reaches(insn_step(self.insns@, old(state)@, *old(conn), r@), final(state)@, *final(conn), res),
            final(state).wf(),
    {
        proof {
            reveal(insn_step);
        }
        let n = self.insns.len();
        assert(state.pc < usize::MAX);
        let c = *conn;
        let insn = self.insns[state.pc];
        match insn {
            Insn::RewindAsync { cursor_id } => state.exec_move(c, r, CursorMove::Rewind, cursor_id),
            Insn::NextAsync { cursor_id } => state.exec_move(c, r, CursorMove::Next, cursor_id),
            Insn::RewindAwait { cursor_id, pc_if_empty } => state.exec_await(c, r, cursor_id, pc_if_empty, false),
            Insn::NextAwait { cursor_id, pc_if_next } => state.exec_await(c, r, cursor_id, pc_if_next, true),
            Insn::IdxGE { cursor_id, start_reg, num_regs, target_pc } => state.exec_idx(c, r, CmpOp::Ge, cursor_id, start_reg, num_regs, target_pc),
            Insn::IdxGT { cursor_id, start_reg, num_regs, target_pc } => state.exec_idx(c, r, CmpOp::Gt, cursor_id, start_reg, num_regs, target_pc),
            Insn::IdxLE { cursor_id, start_reg, num_regs, target_pc } => state.exec_idx(c, r, CmpOp::Le, cursor_id, start_reg, num_regs, target_pc),
            Insn::IdxLT { cursor_id, start_reg, num_regs, target_pc } => state.exec_idx(c, r, CmpOp::Lt, cursor_id, start_reg, num_regs, target_pc),
            _ => unreached(),
        }
    }

    #[verifier::rlimit(60)]
    #[verifier::spinoff_prover]
    fn exec_group_e(&self, state: &mut ProgramState, conn: &mut Connection, r: &Reply) -> (res: Result<Outcome, VmError>)
        requires
            old(state).wf(),
            old(state).pc < self.insns@.len(),
            ({
                let i = self.insns@[old(state).pc as int];
                i is Gosub || i is Return || i is IfPos || i is DecrJumpZero || i is MustBeInt || i is SoftNull
                    || i is BitNot || i is ShiftLeft || i is ShiftRight || i is And || i is Or || i is Not
                    || i is ZeroOrNull || i is Concat || i is OffsetLimit
            }),
        ensures
            reaches(insn_step(self.insns@, old(state)@, *old(conn), r@), final(state)@, *final(conn), res),
            final(state).wf(),
    {
        proof {
            reveal(insn_step);
        }
        let n = self.insns.len();
        assert(state.pc < usize::MAX);
        let c = *conn;
        let insn = self.insns[state.pc];
        match insn {
            Insn::Gosub { target_pc, return_reg } => state.exec_gosub(c, target_pc, return_reg),
            Insn::Return { return_reg } => state.exec_return(c, return_reg),
            Insn::IfPos { reg, target_pc, decrement_by } => state.exec_if_pos(c, reg, target_pc, decrement_by),
            Insn::DecrJumpZero { reg, target_pc } => state.exec_decr_jump_zero(c, reg, target_pc),
            Insn::MustBeInt { reg } => state.exec_must_be_int(c, reg),
            Insn::SoftNull { reg } => state.store(c, reg, Value::Null),
            Insn::BitNot { reg, dest } => state.exec_arith(c, r, ArithOp::BitNot, reg, reg, dest),
            Insn::ShiftLeft { lhs, rhs, dest } => state.exec_arith(c, r, ArithOp::ShiftLeft, lhs, rhs, dest),
            Insn::ShiftRight { lhs, rhs, dest } => state.exec_arith(c, r, ArithOp::ShiftRight, lhs, rhs, dest),
            Insn::And { lhs, rhs, dest } => state.exec_arith(c, r, ArithOp::And, lhs, rhs, dest),
            Insn::Or { lhs, rhs, dest } => state.exec_arith(c, r, ArithOp::Or, lhs, rhs, dest),
            Insn::Not { reg, dest } => state.exec_arith(c, r, ArithOp::Not, reg, reg, dest),
            Insn::Concat { lhs, rhs, dest } => {
                proof {
                    reveal(concat_insn);
                }
                let v = match (state.value_at(lhs), state.value_at(rhs)) {
                    (Some(x), Some(y)) => if matches!(x, Value::Null) || matches!(y, Value::Null) {
                        Value::Null
                    } else {
                        let mut t = x.to_text();
                        append_chars(&mut t, &y.to_text());
                        Value::Text(t)
                    },
                    _ => {
                        return Err(VmError::Internal);
                    },
                };
                state.store(c, dest, v)
            },
            Insn::OffsetLimit { limit_reg, combined_reg, offset_reg } => {
                proof {
                    reveal(offset_limit_insn);
                }
                let v = match (state.value_at(limit_reg), state.value_at(offset_reg)) {
                    (Some(Value::Integer(l)), Some(Value::Integer(o))) => {
                        let o2: i128 = if *o < 0 { 0 } else { *o as i128 };
                        let sum = *l as i128 + o2;
                        if *l <= 0 || !fits(sum) { -1i64 } else { sum as i64 }
                    },
                    _ => {
                        return Err(VmError::Internal);
                    },
                };
                state.store(c, combined_reg, Value::Integer(v))
            },
            Insn::ZeroOrNull { rg1, rg2, dest } => {
                proof {
                    reveal(zero_or_null_insn);
                }
                let v = match (state.value_at(rg1), state.value_at(rg2)) {
                    (Some(x), Some(y)) => if matches!(x, Value::Null) || matches!(y, Value::Null) {
                        Value::Null
                    } else {
                        Value::Integer(0)
                    },
                    _ => {
                        return Err(VmError::Internal);
                    },
                };
                state.store(c, dest, v)
            },
            _ => unreached(),
        }
    }

    fn exec_group_f(&self, state: &mut ProgramState, conn: &mut Connection, r: &Reply) -> (res: Result<Outcome, VmError>)
        requires
            old(state).wf(),
            old(state).pc < self.insns@.len(),
            ({
                let i = self.insns@[old(state).pc as int];
                i is LastAsync || i is PrevAsync || i is LastAwait || i is PrevAwait || i is SeekGE || i is SeekGT || i is NotExists
            }),
        ensures
            reaches(insn_step(self.insns@, old(state)@, *old(conn), r@), final(state)@, *final(conn), res),
            final(state).wf(),
    {
        proof {
            reveal(insn_step);
        }
        let n = self.insns.len();
        assert(state.pc < usize::MAX);
        let c = *conn;
        let insn = self.insns[state.pc];
        match insn {
            Insn::LastAsync { cursor_id } => state.exec_move(c, r, CursorMove::Last, cursor_id),
            Insn::PrevAsync { cursor_id } => state.exec_move(c, r, CursorMove::Prev, cursor_id),
            Insn::LastAwait { cursor_id, pc_if_empty } => state.exec_await(c, r, cursor_id, pc_if_empty, false),
            Insn::PrevAwait { cursor_id, pc_if_next } => state.exec_await(c, r, cursor_id, pc_if_next, true),
            Insn::SeekGE { cursor_id, start_reg, num_regs, target_pc } => state.exec_seek_key(c, r, CmpOp::Ge, cursor_id, start_reg, num_regs, target_pc),
            Insn::SeekGT { cursor_id, start_reg, num_regs, target_pc } => state.exec_seek_key(c, r, CmpOp::Gt, cursor_id, start_reg, num_regs, target_pc),
            Insn::NotExists { cursor, rowid_reg, target_pc } => state.exec_seek_rowid(c, r, cursor, rowid_reg, target_pc),
            _ => unreached(),
        }
    }

    fn exec_group_g(&self, state: &mut ProgramState, conn: &mut Connection, r: &Reply) -> (res: Result<Outcome, VmError>)
        requires
            old(state).wf(),
            old(state).pc < self.insns@.len(),
            ({
                let i = self.insns@[old(state).pc as int];
                i is OpenReadAsync || i is OpenWriteAsync || i is Close || i is NullRow || i is DeleteAsync || i is InsertAwait || i is DeleteAwait || i is InsertAsync || i is NewRowid
            }),
        ensures
            reaches(insn_step(self.insns@, old(state)@, *old(conn), r@), final(state)@, *final(conn), res),
            final(state).wf(),
    {
        proof {
            reveal(insn_step);
        }
        let n = self.insns.len();
        assert(state.pc < usize::MAX);
        let c = *conn;
        let insn = self.insns[state.pc];
        match insn {
            Insn::OpenReadAsync { cursor_id, root_page } => state.exec_effect(c, r, Request::Storage { op: StorageOp::OpenRead, cursor_id, arg: #[verifier::truncate] (root_page as i64), record: no_values() }),
            Insn::OpenWriteAsync { cursor_id, root_page } => state.exec_effect(c, r, Request::Storage { op: StorageOp::OpenWrite, cursor_id, arg: #[verifier::truncate] (root_page as i64), record: no_values() }),
            Insn::Close { cursor_id } => state.exec_effect(c, r, Request::Storage { op: StorageOp::Close, cursor_id, arg: 0, record: no_values() }),
            Insn::NullRow { cursor_id } => state.exec_effect(c, r, Request::Storage { op: StorageOp::NullRow, cursor_id, arg: 0, record: no_values() }),
            Insn::DeleteAsync { cursor_id } => state.exec_effect(c, r, Request::Storage { op: StorageOp::Delete, cursor_id, arg: 0, record: no_values() }),
            Insn::InsertAwait { cursor_id } => state.exec_counted_wait(c, r, cursor_id),
            Insn::DeleteAwait { cursor_id } => state.exec_counted_wait(c, r, cursor_id),
            Insn::InsertAsync { cursor, key_reg, record_reg } => state.exec_insert(c, r, cursor, key_reg, record_reg),
            Insn::NewRowid { cursor, rowid_reg } => state.exec_new_rowid(c, r, cursor, rowid_reg),
            _ => unreached(),
        }
    }

    fn exec_group_h(&self, state: &mut ProgramState, conn: &mut Connection, r: &Reply) -> (res: Result<Outcome, VmError>)
        requires
            old(state).wf(),
            old(state).pc < self.insns@.len(),
            ({
                let i = self.insns@[old(state).pc as int];
                i is SorterOpen || i is VOpenAsync || i is SorterInsert || i is SorterSort || i is SorterNext || i is VNext || i is SorterData || i is VColumn || i is VFilter
            }),
        ensures
            reaches(insn_step(self.insns@, old(state)@, *old(conn), r@), final(state)@, *final(conn), res),
            final(state).wf(),
    {
        proof {
            reveal(insn_step);
        }
        let n = self.insns.len();
        assert(state.pc < usize::MAX);
        let c = *conn;
        let insn = self.insns[state.pc];
        match insn {
            Insn::SorterOpen { cursor_id } => state.exec_effect(c, r, Request::Storage { op: StorageOp::SorterOpen, cursor_id, arg: 0, record: no_values() }),
            Insn::VOpenAsync { cursor_id } => state.exec_effect(c, r, Request::Storage { op: StorageOp::VOpen, cursor_id, arg: 0, record: no_values() }),
            Insn::SorterInsert { cursor_id, record_reg } => state.exec_sorter_insert(c, r, cursor_id, record_reg),
            Insn::SorterSort { cursor_id, pc_if_empty } => state.exec_ask_branch(c, r, Request::Move { op: CursorMove::Sort, cursor_id }, pc_if_empty, false),
            Insn::SorterNext { cursor_id, pc_if_next } => state.exec_ask_branch(c, r, Request::Move { op: CursorMove::Next, cursor_id }, pc_if_next, true),
            Insn::VNext { cursor_id, pc_if_next } => state.exec_ask_branch(c, r, Request::Move { op: CursorMove::Next, cursor_id }, pc_if_next, true),
            Insn::SorterData { cursor_id, dest_reg } => state.exec_sorter_data(c, r, cursor_id, dest_reg),
            Insn::VColumn { cursor_id, column, dest } => state.exec_vcolumn(c, r, cursor_id, column, dest),
            Insn::VFilter { cursor_id, arg_count, args_reg, pc_if_empty } => state.exec_vfilter(c, r, cursor_id, arg_count, args_reg, pc_if_empty),
            _ => unreached(),
        }
    }

    fn exec_group_i(&self, state: &mut ProgramState, conn: &mut Connection, r: &Reply) -> (res: Result<Outcome, VmError>)
        requires
            old(state).wf(),
            old(state).pc < self.insns@.len(),
            ({
                let i = self.insns@[old(state).pc as int];
                i is String8 || i is Real || i is Blob
            }),
        ensures
            reaches(insn_step(self.insns@, old(state)@, *old(conn), r@), final(state)@, *final(conn), res),
            final(state).wf(),
    {
        proof {
            reveal(insn_step);
        }
        let n = self.insns.len();
        assert(state.pc < usize::MAX);
        let c = *conn;
        let insn = self.insns[state.pc];
        match insn {
            Insn::String8 { index, dest } => state.exec_constant(c, index, dest),
            Insn::Real { index, dest } => state.exec_constant(c, index, dest),
            Insn::Blob { index, dest } => state.exec_constant(c, index, dest),
            _ => unreached(),
        }
    }

    fn exec_group_j(&self, state: &mut ProgramState, conn: &mut Connection, r: &Reply) -> (res: Result<Outcome, VmError>)
        requires
            old(state).wf(),
            old(state).pc < self.insns@.len(),
            ({
                let i = self.insns@[old(state).pc as int];
                i is PageCount || i is ReadCookie || i is CreateBtree || i is Destroy || i is DropTable || i is ParseSchema
            }),
        ensures
            reaches(insn_step(self.insns@, old(state)@, *old(conn), r@), final(state)@, *final(conn), res),
            final(state).wf(),
    {
        proof {
            reveal(insn_step);
        }
        let n = self.insns.len();
        assert(state.pc < usize::MAX);
        let c = *conn;
        let insn = self.insns[state.pc];
        match insn {
            Insn::PageCount { db, dest } => state.exec_ask_value(c, r, Request::Pager { op: PagerOp::PageCount, arg: #[verifier::truncate] (db as i64) }, dest),
            Insn::ReadCookie { db, dest, cookie } => state.exec_ask_value(c, r, Request::Pager { op: PagerOp::ReadCookie, arg: #[verifier::truncate] (cookie as i64) }, dest),
            Insn::CreateBtree { db, root, flags } => state.exec_ask_value(c, r, Request::Pager { op: PagerOp::CreateBtree, arg: #[verifier::truncate] (flags as i64) }, root),
            Insn::Destroy { root, former_root_reg } => state.exec_ask_value(c, r, Request::Pager { op: PagerOp::Destroy, arg: #[verifier::truncate] (root as i64) }, former_root_reg),
            Insn::DropTable { db } => state.exec_effect(c, r, Request::Pager { op: PagerOp::DropTable, arg: #[verifier::truncate] (db as i64) }),
            Insn::ParseSchema { db } => state.exec_effect(c, r, Request::Pager { op: PagerOp::ParseSchema, arg: #[verifier::truncate] (db as i64) }),
            _ => unreached(),
        }
    }

    /// Executes the instruction at the program counter, given the host's
    /// reply to the previous request (`Reply::Nothing` if there was none).
    pub fn execute_insn(&self, state: &mut ProgramState, conn: &mut Connection, r: &Reply) -> (res: Result<Outcome, VmError>)
        requires
            old(state).wf(),
        ensures
            reaches(insn_step(self.insns@, old(state)@, *old(conn), r@), final(state)@, *final(conn), res),
            final(state).wf(),
    {
        if state.pc >= self.insns.len() {
            proof {
                reveal(insn_step);
            }
            return Err(VmError::Internal);
        }
        match self.insns[state.pc] {
            Insn::Init { .. } | Insn::Goto { .. } | Insn::Noop | Insn::Integer { .. } | Insn::Null { .. }
            | Insn::Copy { .. } | Insn::Arith { .. } | Insn::Compare { .. } | Insn::Jump { .. }
            | Insn::Cmp { .. } => self.exec_group_a(state, conn, r),
            Insn::If { .. } | Insn::IfNot { .. } | Insn::IsNull { .. } | Insn::NotNull { .. }
            | Insn::InitCoroutine { .. } | Insn::Yield { .. } | Insn::EndCoroutine { .. }
            | Insn::DeferredSeek { .. } | Insn::Variable { .. } | Insn::Cast { .. }
            | Insn::Function { .. } => self.exec_group_b(state, conn, r),
            Insn::LastAsync { .. } | Insn::PrevAsync { .. } | Insn::LastAwait { .. } | Insn::PrevAwait { .. }
            | Insn::SeekGE { .. } | Insn::SeekGT { .. } | Insn::NotExists { .. } => self.exec_group_f(state, conn, r),
            Insn::OpenReadAsync { .. } | Insn::OpenWriteAsync { .. } | Insn::Close { .. } | Insn::NullRow { .. }
            | Insn::DeleteAsync { .. } | Insn::InsertAwait { .. } | Insn::DeleteAwait { .. } | Insn::InsertAsync { .. }
            | Insn::NewRowid { .. } => self.exec_group_g(state, conn, r),
            Insn::String8 { .. } | Insn::Real { .. } | Insn::Blob { .. } => self.exec_group_i(state, conn, r),
            Insn::PageCount { .. } | Insn::ReadCookie { .. } | Insn::CreateBtree { .. } | Insn::Destroy { .. } | Insn::DropTable { .. } | Insn::ParseSchema { .. } => self.exec_group_j(state, conn, r),
            Insn::SorterOpen { .. } | Insn::VOpenAsync { .. } | Insn::SorterInsert { .. } | Insn::SorterSort { .. } | Insn::SorterNext { .. } | Insn::VNext { .. } | Insn::SorterData { .. } | Insn::VColumn { .. } | Insn::VFilter { .. } => self.exec_group_h(state, conn, r),
            Insn::RewindAsync { .. } | Insn::NextAsync { .. } | Insn::RewindAwait { .. }
            | Insn::NextAwait { .. } | Insn::IdxGE { .. } | Insn::IdxGT { .. } | Insn::IdxLE { .. }
            | Insn::IdxLT { .. } => self.exec_group_d(state, conn, r),
            Insn::Gosub { .. } | Insn::Return { .. } | Insn::IfPos { .. } | Insn::DecrJumpZero { .. }
            | Insn::MustBeInt { .. } | Insn::SoftNull { .. } | Insn::ZeroOrNull { .. } | Insn::Concat { .. }
            | Insn::OffsetLimit { .. } | Insn::BitNot { .. } | Insn::ShiftLeft { .. } | Insn::ShiftRight { .. }
            | Insn::And { .. } | Insn::Or { .. } | Insn::Not { .. } => {
                self.exec_group_e(state, conn, r)
            },
            _ => self.exec_group_c(state, conn, r),
        }
    }
}

/// Whether `If` (`not == false`) or `IfNot` (`not == true`) jumps on `v`.
pub fn exec_if(v: &Value, jump_if_null: bool, not: bool) -> (r: bool)
    ensures
        r == if_jumps(v@, jump_if_null, not),
{
    proof {
        reveal(if_jumps);
    }
    match v {
        Value::Integer(i) => if *i == 0 { not } else { !not },
        Value::Float(x) => if x.bits & 0x7fff_ffff_ffff_ffffu64 == 0 { not } else { !not },
        Value::Null => jump_if_null,
        _ => false,
    }
}

fn fits(x: i128) -> (r: bool)
    ensures
        r == i64_fits(x as int),
{
    x >= i64::MIN as i128 && x <= i64::MAX as i128
}

fn magnitude_of(x: i64) -> (r: u64)
    ensures
        r as int == crate::vm::magnitude(x),
{
    if x == i64::MIN {
        0x8000_0000_0000_0000u64
    } else if x < 0 {
        (-x) as u64
    } else {
        x as u64
    }
}

fn shift_exec(x: i64, y: i64, left: bool) -> (r: i64)
    ensures
        r == crate::vm::shift(x, y, left),
{
    let l = if y < 0 { !left } else { left };
    let n: i128 = if y < 0 { -(y as i128) } else { y as i128 };
    if n >= 64 {
        if !l && x < 0 { -1 } else { 0 }
    } else if l {
        ((x as u64) << (n as u64)) as i64
    } else {
        x >> (n as u64)
    }
}

fn truth_exec(v: &Value) -> (r: Option<Option<bool>>)
    ensures
        r == crate::vm::truth(v@),
{
    match v {
        Value::Null => Some(None),
        Value::Integer(i) => Some(Some(*i != 0)),
        Value::Float(f) => Some(Some(!(f.bits & 0x7fff_ffff_ffff_ffffu64 == 0))),
        _ => {
            let t = v.to_text();
            if crate::cast::needs_real_exec(&t) {
                None
            } else {
                Some(Some(crate::cast::cast_text_to_integer(&t) != 0))
            }
        },
    }
}

fn bool_value_exec(b: Option<bool>) -> (r: Value)
    ensures
        r@ == crate::vm::bool_value(b),
{
    match b {
        None => Value::Null,
        Some(true) => Value::Integer(1),
        Some(false) => Value::Integer(0),
    }
}

fn logic_local_exec(op: ArithOp, a: &Value, b: &Value) -> (r: Option<Value>)
    ensures
        opt_view(r) == crate::vm::logic_local(op, a@, b@),
{
    match (truth_exec(a), truth_exec(b)) {
        (Some(x), Some(y)) => Some(bool_value_exec(match op {
            ArithOp::And => if x == Some(false) || y == Some(false) {
                Some(false)
            } else if x.is_none() || y.is_none() {
                None
            } else {
                Some(true)
            },
            ArithOp::Or => if x == Some(true) || y == Some(true) {
                Some(true)
            } else if x.is_none() || y.is_none() {
                None
            } else {
                Some(false)
            },
            _ => match x {
                None => None,
                Some(v) => Some(!v),
            },
        })),
        _ => None,
    }
}

/// The arithmetic the engine does itself; `None` leaves it to the host.
pub fn arith_local_exec(op: ArithOp, a: &Value, b: &Value) -> (r: Option<Value>)
    ensures
        opt_view(r) == arith_local(op, a@, b@),
{
    if matches!(op, ArithOp::And) || matches!(op, ArithOp::Or) || matches!(op, ArithOp::Not) {
        return logic_local_exec(op, a, b);
    }
    match (a, b) {
        (Value::Null, _) => Some(Value::Null),
        (_, Value::Null) => if matches!(op, ArithOp::BitNot) { None } else { Some(Value::Null) },
        (Value::Integer(x), Value::Integer(y)) => {
            let x = *x;
            let y = *y;
            match op {
                ArithOp::Add => {
                    let z = x as i128 + y as i128;
                    if fits(z) { Some(Value::Integer(z as i64)) } else { None }
                },
                ArithOp::Subtract => {
                    let z = x as i128 - y as i128;
                    if fits(z) { Some(Value::Integer(z as i64)) } else { None }
                },
                ArithOp::Multiply => {
                    proof {
                        vstd::arithmetic::mul::lemma_mul_upper_bound(
                            if x >= 0 { x as int } else { -x as int }, 0x8000_0000_0000_0000,
                            if y >= 0 { y as int } else { -y as int }, 0x8000_0000_0000_0000);
                        assert(0x8000_0000_0000_0000int * 0x8000_0000_0000_0000int == 0x4000_0000_0000_0000_0000_0000_0000_0000int);
                        assert(x * y == (if x >= 0 { x as int } else { -x as int }) * (if y >= 0 { y as int } else { -y as int })
                            || x * y == -((if x >= 0 { x as int } else { -x as int }) * (if y >= 0 { y as int } else { -y as int }))) by (nonlinear_arith);
                    }
                    let z = x as i128 * y as i128;
                    if fits(z) { Some(Value::Integer(z as i64)) } else { None }
                },
                ArithOp::Divide => if y == 0 {
                    Some(Value::Null)
                } else {
                    let q = magnitude_of(x) / magnitude_of(y);
                    let negative = (x < 0) != (y < 0);
                    if negative {
                        Some(Value::Integer(-(q as i128) as i64))
                    } else if q > i64::MAX as u64 {
                        None
                    } else {
                        Some(Value::Integer(q as i64))
                    }
                },
                ArithOp::Remainder => if y == 0 {
                    Some(Value::Null)
                } else {
                    let m = magnitude_of(x) % magnitude_of(y);
                    Some(Value::Integer(if x < 0 { -(m as i128) as i64 } else { m as i64 }))
                },
                ArithOp::BitAnd => Some(Value::Integer(x & y)),
                ArithOp::BitOr => Some(Value::Integer(x | y)),
                ArithOp::ShiftLeft => Some(Value::Integer(shift_exec(x, y, true))),
                ArithOp::ShiftRight => Some(Value::Integer(shift_exec(x, y, false))),
                ArithOp::BitNot => Some(Value::Integer(!x)),
                _ => None,
            }
        },
        _ => None,
    }
}

/// The values of registers `start_reg .. start_reg + count`, when all of
/// them exist and hold values.
pub fn make_owned_record(registers: &Vec<Register>, start_reg: usize, count: usize) -> (r: Option<Vec<Value>>)
    ensures
        ({
            let ok = forall|k: int| 0 <= k < count ==> start_reg + k < registers@.len() && (#[trigger] registers@[start_reg + k]) is OwnedValue;
            match r {
                Some(v) => ok && values_view(v@) == Seq::new(count as nat, |k: int| registers@[start_reg + k]->OwnedValue_0@),
                None => !ok,
            }
        }),
{
    let mut out: Vec<Value> = Vec::new();
    let mut k: usize = 0;
    while k < count
        invariant
            k <= count,
            out@.len() == k,
            forall|j: int| 0 <= j < k ==> start_reg + j < registers@.len() && (#[trigger] registers@[start_reg + j]) is OwnedValue
                && out@[j]@ == registers@[start_reg + j]->OwnedValue_0@,
        decreases count - k,
    {
        if start_reg >= registers.len() || k >= registers.len() - start_reg {
            assert(!(start_reg + k < registers@.len() && registers@[start_reg + k] is OwnedValue));
            return None;
        }
        match &registers[start_reg + k] {
            Register::OwnedValue(v) => out.push(v.duplicate()),
            _ => {
                assert(!(start_reg + k < registers@.len() && registers@[start_reg + k] is OwnedValue));
                return None;
            },
        }
        k = k + 1;
    }
    assert(values_view(out@) =~= Seq::new(count as nat, |j: int| registers@[start_reg + j]->OwnedValue_0@));
    Some(out)
}

impl ProgramState {
    fn exec_make_record(&mut self, c: Connection, start: usize, count: usize, dest: usize) -> (res: Result<Outcome, VmError>)
        requires
            old(self).pc < usize::MAX,
        ensures
            reaches(make_record_insn(old(self)@, c, start as int, count as int, dest as int), final(self)@, c, res),
            final(self).ended_coroutine == old(self).ended_coroutine,
    {
        proof {
            reveal(make_record_insn);
        }
        let ghost s = self@;
        let rec = make_owned_record(&self.registers, start, count);
        match rec {
            Some(v) => {
                if dest >= self.registers.len() {
                    return Err(VmError::Internal);
                }
                assert forall|k: int| 0 <= k < count implies #[trigger] val_at(s, start + k) is Some by {
                    assert(self.registers@[start + k] is OwnedValue);
                }
                assert(values_view(v@) =~= Seq::new(count as nat, |k: int| val_at(s, start + k)->0));
                self.set_register(dest, Register::Record(v));
                self.pc = self.pc + 1;
                Ok(Outcome::Next)
            },
            None => {
                proof {
                    let k = choose|k: int| 0 <= k < count && !(start + k < self.registers@.len() && (#[trigger] self.registers@[start + k]) is OwnedValue);
                    assert(val_at(s, start + k) is None);
                }
                Err(VmError::Internal)
            },
        }
    }
}

/// Value registers holding copies of `args`.
fn as_registers(args: &Vec<Value>) -> (r: Vec<Register>)
    ensures
        crate::functions::all_values(r@),
        crate::functions::reg_values(r@) == values_view(args@),
{
    let mut r: Vec<Register> = Vec::new();
    let mut i: usize = 0;
    while i < args.len()
        invariant
            i <= args@.len(),
            crate::functions::all_values(r@),
            crate::functions::reg_values(r@) == values_view(args@).subrange(0, i as int),
        decreases args.len() - i,
    {
        let ghost prev = r@;
        r.push(Register::OwnedValue(args[i].duplicate()));
        assert(crate::functions::reg_values(r@) =~= crate::functions::reg_values(prev).push(args@[i as int]@));
        i = i + 1;
        assert(crate::functions::reg_values(r@) =~= values_view(args@).subrange(0, i as int));
    }
    assert(values_view(args@).subrange(0, args@.len() as int) =~= values_view(args@));
    r
}

fn trim_any(v: &Value, pattern: Option<&Value>, left: bool, right: bool) -> (r: Value)
    requires
        left || right,
    ensures
        r@ == crate::functions::trim_spec(v@, crate::functions::opt_value_view(pattern), left, right),
{
    if left && right {
        crate::functions::exec_trim(v, pattern)
    } else if left {
        crate::functions::exec_ltrim(v, pattern)
    } else {
        crate::functions::exec_rtrim(v, pattern)
    }
}

/// `like(pattern, text)` on values.
fn like_call(pattern: &Value, text: &Value) -> (r: Value)
    ensures
        r@ == crate::vm::like_value(pattern@, text@),
{
    if matches!(pattern, Value::Null) || matches!(text, Value::Null) {
        return Value::Null;
    }
    let p = crate::text::chars_to_string(&pattern.to_text());
    let t = crate::text::chars_to_string(&text.to_text());
    match crate::like::exec_like(p.as_str(), t.as_str()) {
        Some(true) => Value::Integer(1),
        Some(false) => Value::Integer(0),
        None => Value::Null,
    }
}

/// Calls scalar function `f` on `args`.
pub fn exec_scalar(f: ScalarFunc, args: &Vec<Value>) -> (r: Result<Value, VmError>)
    ensures
        match r {
            Ok(v) => scalar_spec(f, values_view(args@)) == Ok::<ValueView, VmError>(v@),
            Err(e) => scalar_spec(f, values_view(args@)) == Err::<ValueView, VmError>(e),
        },
{
    let n = args.len();
    match f {
        ScalarFunc::Instr => if n == 2 { Ok(crate::functions::exec_instr(&args[0], &args[1])) } else { Err(VmError::Internal) },
        ScalarFunc::Nullif => if n == 2 { Ok(crate::functions::exec_nullif(&args[0], &args[1])) } else { Err(VmError::Internal) },
        ScalarFunc::Replace => if n == 3 { Ok(crate::cast::exec_replace(&args[0], &args[1], &args[2])) } else { Err(VmError::Internal) },
        ScalarFunc::Like => if n == 2 { Ok(like_call(&args[0], &args[1])) } else { Err(VmError::Internal) },
        ScalarFunc::Trim | ScalarFunc::LTrim | ScalarFunc::RTrim => {
            let left = !matches!(f, ScalarFunc::RTrim);
            let right = !matches!(f, ScalarFunc::LTrim);
            if n == 1 {
                Ok(trim_any(&args[0], None, left, right))
            } else if n == 2 {
                Ok(trim_any(&args[0], Some(&args[1]), left, right))
            } else {
                Err(VmError::Internal)
            }
        },
        ScalarFunc::Substr => if n == 2 {
            Ok(crate::functions::exec_substring(&args[0], &args[1], None))
        } else if n == 3 {
            Ok(crate::functions::exec_substring(&args[0], &args[1], Some(&args[2])))
        } else {
            Err(VmError::Internal)
        },
        ScalarFunc::Unhex => if n == 1 {
            Ok(crate::functions::exec_unhex(&args[0], None))
        } else if n == 2 {
            Ok(crate::functions::exec_unhex(&args[0], Some(&args[1])))
        } else {
            Err(VmError::Internal)
        },
        ScalarFunc::Zeroblob => if n == 1 { Ok(crate::cast::exec_zeroblob(&args[0])) } else { Err(VmError::Internal) },
        ScalarFunc::Char | ScalarFunc::Concat | ScalarFunc::ConcatWs | ScalarFunc::Min | ScalarFunc::Max => {
            let regs = as_registers(args);
            match f {
                ScalarFunc::Char => Ok(crate::functions::exec_char(regs.as_slice())),
                ScalarFunc::Concat => Ok(crate::functions::exec_concat_strings(regs.as_slice())),
                ScalarFunc::ConcatWs => Ok(crate::functions::exec_concat_ws(regs.as_slice())),
                _ => if n == 0 {
                    Err(VmError::Internal)
                } else if matches!(f, ScalarFunc::Min) {
                    Ok(crate::functions::exec_min(regs.as_slice()))
                } else {
                    Ok(crate::functions::exec_max(regs.as_slice()))
                },
            }
        },
        _ => {
            if n != 1 {
                return Err(VmError::Internal);
            }
            let v = &args[0];
            match f {
                ScalarFunc::Length => Ok(crate::functions::exec_length(v)),
                ScalarFunc::OctetLength => Ok(crate::functions::exec_octet_length(v)),
                ScalarFunc::Typeof => Ok(crate::functions::exec_typeof(v)),
                ScalarFunc::Unicode => Ok(crate::functions::exec_unicode(v)),
                ScalarFunc::Quote => Ok(crate::functions::exec_quote(v)),
                ScalarFunc::Hex => Ok(crate::functions::exec_hex(v)),
                ScalarFunc::Soundex => Ok(crate::soundex::exec_soundex(v)),
                ScalarFunc::Upper => Ok(crate::functions::exec_upper(v).unwrap()),
                ScalarFunc::Lower => Ok(crate::functions::exec_lower(v).unwrap()),
                _ => crate::functions::exec_abs(v),
            }
        },
    }
}

/// An empty list of values.
fn no_values() -> (r: Vec<Value>)
    ensures
        values_view(r@) == Seq::<ValueView>::empty(),
{
    let r: Vec<Value> = Vec::new();
    assert(values_view(r@) =~= Seq::<ValueView>::empty());
    r
}

/// A copy of a list of values.
fn copy_values(vs: &Vec<Value>) -> (r: Vec<Value>)
    ensures
        values_view(r@) == values_view(vs@),
{
    let mut out: Vec<Value> = Vec::new();
    let mut i: usize = 0;
    while i < vs.len()
        invariant
            i <= vs@.len(),
            values_view(out@) == values_view(vs@).subrange(0, i as int),
        decreases vs.len() - i,
    {
        let ghost prev = out@;
        out.push(vs[i].duplicate());
        assert(values_view(out@) =~= values_view(prev).push(vs@[i as int]@));
        i = i + 1;
        assert(values_view(out@) =~= values_view(vs@).subrange(0, i as int));
    }
    assert(values_view(vs@).subrange(0, vs@.len() as int) =~= values_view(vs@));
    out
}

impl ProgramState {
    fn exec_ask_value(&mut self, c: Connection, r: &Reply, q: Request, dest: usize) -> (res: Result<Outcome, VmError>)
        requires
            old(self).pc < usize::MAX,
        ensures
            reaches(ask_value_insn(old(self)@, c, r@, q@, dest as int), final(self)@, c, res),
            final(self).ended_coroutine == old(self).ended_coroutine,
    {
        proof {
            reveal(ask_value_insn);
        }
        match r {
            Reply::Value(v) => self.store(c, dest, v.duplicate()),
            Reply::Pending => Ok(Outcome::Stop(StepResult::IO)),
            _ => Ok(Outcome::Need(q)),
        }
    }

    fn exec_constant(&mut self, c: Connection, index: usize, dest: usize) -> (res: Result<Outcome, VmError>)
        requires
            old(self).pc < usize::MAX,
        ensures
            reaches(constant_insn(old(self)@, c, index as int, dest as int), final(self)@, c, res),
            final(self).ended_coroutine == old(self).ended_coroutine,
    {
        proof {
            reveal(constant_insn);
        }
        if index >= self.constants.len() {
            return Err(VmError::Internal);
        }
        let v = self.constants[index].duplicate();
        self.store(c, dest, v)
    }

    fn exec_ask_branch(&mut self, c: Connection, r: &Reply, q: Request, t: BranchOffset, jump_if_row: bool) -> (res: Result<Outcome, VmError>)
        requires
            old(self).pc < usize::MAX,
        ensures
            reaches(ask_branch_insn(old(self)@, c, r@, q@, t, jump_if_row), final(self)@, c, res),
            final(self).ended_coroutine == old(self).ended_coroutine,
    {
        proof {
            reveal(ask_branch_insn);
        }
        match r {
            Reply::Found(has_row) => self.branch(c, *has_row == jump_if_row, t),
            Reply::Pending => Ok(Outcome::Stop(StepResult::IO)),
            Reply::Failed => Err(VmError::Extension),
            _ => Ok(Outcome::Need(q)),
        }
    }

    fn exec_sorter_insert(&mut self, c: Connection, r: &Reply, cursor: usize, rec: usize) -> (res: Result<Outcome, VmError>)
        requires
            old(self).pc < usize::MAX,
        ensures
            reaches(sorter_insert_insn(old(self)@, c, r@, cursor, rec as int), final(self)@, c, res),
            final(self).ended_coroutine == old(self).ended_coroutine,
    {
        proof {
            reveal(sorter_insert_insn);
        }
        if rec >= self.registers.len() {
            return Err(VmError::Internal);
        }
        let record = match &self.registers[rec] {
            Register::Record(vs) => copy_values(vs),
            _ => {
                return Err(VmError::Internal);
            },
        };
        self.exec_effect(c, r, Request::Storage { op: StorageOp::SorterInsert, cursor_id: cursor, arg: 0, record })
    }

    fn exec_sorter_data(&mut self, c: Connection, r: &Reply, cursor: usize, dest: usize) -> (res: Result<Outcome, VmError>)
        requires
            old(self).pc < usize::MAX,
        ensures
            reaches(sorter_data_insn(old(self)@, c, r@, cursor, dest as int), final(self)@, c, res),
            final(self).ended_coroutine == old(self).ended_coroutine,
    {
        proof {
            reveal(sorter_data_insn);
        }
        if dest >= self.registers.len() {
            return Err(VmError::Internal);
        }
        match r {
            Reply::Record(Some(vs)) => {
                self.set_register(dest, Register::Record(copy_values(vs)));
                self.pc = self.pc + 1;
                Ok(Outcome::Next)
            },
            Reply::Record(None) => {
                self.set_register(dest, Register::OwnedValue(Value::Null));
                self.pc = self.pc + 1;
                Ok(Outcome::Next)
            },
            _ => Ok(Outcome::Need(Request::ReadRecord { cursor_id: cursor })),
        }
    }

    fn exec_vcolumn(&mut self, c: Connection, r: &Reply, cursor: usize, column: usize, dest: usize) -> (res: Result<Outcome, VmError>)
        requires
            old(self).pc < usize::MAX,
        ensures
            reaches(vcolumn_insn(old(self)@, c, r@, cursor, column, dest as int), final(self)@, c, res),
            final(self).ended_coroutine == old(self).ended_coroutine,
    {
        proof {
            reveal(vcolumn_insn);
        }
        match r {
            Reply::Value(v) => self.store(c, dest, v.duplicate()),
            Reply::Failed => Err(VmError::Extension),
            _ => Ok(Outcome::Need(Request::ReadColumn { cursor_id: cursor, column })),
        }
    }

    fn exec_vfilter(&mut self, c: Connection, r: &Reply, cursor: usize, n: usize, start: usize, t: BranchOffset) -> (res: Result<Outcome, VmError>)
        requires
            old(self).pc < usize::MAX,
        ensures
            reaches(vfilter_insn(old(self)@, c, r@, cursor, n as int, start as int, t), final(self)@, c, res),
            final(self).ended_coroutine == old(self).ended_coroutine,
    {
        proof {
            reveal(vfilter_insn);
        }
        let ghost s = self@;
        let args = match make_owned_record(&self.registers, start, n) {
            Some(a) => a,
            None => {
                proof {
                    let k = choose|k: int| 0 <= k < n && !(start + k < self.registers@.len() && (#[trigger] self.registers@[start + k]) is OwnedValue);
                    assert(val_at(s, start + k) is None);
                }
                return Err(VmError::Internal);
            },
        };
        assert forall|k: int| 0 <= k < n implies #[trigger] val_at(s, start + k) is Some by {
            assert(self.registers@[start + k] is OwnedValue);
        }
        assert(values_view(args@) =~= key_of(s, start as int, n as int));
        self.exec_ask_branch(c, r, Request::VFilter { cursor_id: cursor, args }, t, false)
    }

    fn exec_counted_wait(&mut self, c: Connection, r: &Reply, cursor: usize) -> (res: Result<Outcome, VmError>)
        requires
            old(self).pc < usize::MAX,
        ensures
            reaches(counted_wait_insn(old(self)@, c, r@, cursor), final(self)@, c, res),
            final(self).ended_coroutine == old(self).ended_coroutine,
    {
        proof {
            reveal(counted_wait_insn);
        }
        match r {
            Reply::Ready => {
                if self.n_change < i64::MAX {
                    self.n_change = self.n_change + 1;
                }
                self.pc = self.pc + 1;
                Ok(Outcome::Next)
            },
            Reply::Pending => Ok(Outcome::Stop(StepResult::IO)),
            _ => Ok(Outcome::Need(Request::Wait { cursor_id: cursor })),
        }
    }

    fn exec_effect(&mut self, c: Connection, r: &Reply, q: Request) -> (res: Result<Outcome, VmError>)
        requires
            old(self).pc < usize::MAX,
        ensures
            reaches(effect_insn(old(self)@, c, r@, q@), final(self)@, c, res),
            final(self).ended_coroutine == old(self).ended_coroutine,
    {
        proof {
            reveal(effect_insn);
        }
        match r {
            Reply::Ready => self.advance(c),
            Reply::Pending => Ok(Outcome::Stop(StepResult::IO)),
            _ => Ok(Outcome::Need(q)),
        }
    }

    fn exec_seek_key(&mut self, c: Connection, r: &Reply, op: CmpOp, cursor: usize, start: usize, n: usize, t: BranchOffset) -> (res: Result<Outcome, VmError>)
        requires
            old(self).pc < usize::MAX,
        ensures
            reaches(seek_key_insn(old(self)@, c, r@, op, cursor, start as int, n as int, t), final(self)@, c, res),
            final(self).ended_coroutine == old(self).ended_coroutine,
    {
        proof {
            reveal(seek_key_insn);
        }
        let ghost s = self@;
        let key = match make_owned_record(&self.registers, start, n) {
            Some(k) => k,
            None => {
                proof {
                    let k = choose|k: int| 0 <= k < n && !(start + k < self.registers@.len() && (#[trigger] self.registers@[start + k]) is OwnedValue);
                    assert(val_at(s, start + k) is None);
                }
                return Err(VmError::Internal);
            },
        };
        assert forall|k: int| 0 <= k < n implies #[trigger] val_at(s, start + k) is Some by {
            assert(self.registers@[start + k] is OwnedValue);
        }
        assert(values_view(key@) =~= key_of(s, start as int, n as int));
        match r {
            Reply::Found(true) => self.advance(c),
            Reply::Found(false) => self.jump(c, t),
            Reply::Pending => Ok(Outcome::Stop(StepResult::IO)),
            _ => Ok(Outcome::Need(Request::Seek { op, cursor_id: cursor, key })),
        }
    }

    fn exec_insert(&mut self, c: Connection, r: &Reply, cursor: usize, key: usize, rec: usize) -> (res: Result<Outcome, VmError>)
        requires
            old(self).pc < usize::MAX,
        ensures
            reaches(insert_insn(old(self)@, c, r@, cursor, key as int, rec as int), final(self)@, c, res),
            final(self).ended_coroutine == old(self).ended_coroutine,
    {
        proof {
            reveal(insert_insn);
        }
        let k = match self.value_at(key) {
            Some(Value::Integer(k)) => *k,
            _ => {
                return Err(VmError::Internal);
            },
        };
        if rec >= self.registers.len() {
            return Err(VmError::Internal);
        }
        let record = match &self.registers[rec] {
            Register::Record(vs) => {
                let mut out: Vec<Value> = Vec::new();
                let mut i: usize = 0;
                while i < vs.len()
                    invariant
                        i <= vs@.len(),
                        values_view(out@) == values_view(vs@).subrange(0, i as int),
                    decreases vs.len() - i,
                {
                    let ghost prev = out@;
                    out.push(vs[i].duplicate());
                    assert(values_view(out@) =~= values_view(prev).push(vs@[i as int]@));
                    i = i + 1;
                    assert(values_view(out@) =~= values_view(vs@).subrange(0, i as int));
                }
                assert(values_view(vs@).subrange(0, vs@.len() as int) =~= values_view(vs@));
                out
            },
            _ => {
                return Err(VmError::Internal);
            },
        };
        self.exec_effect(c, r, Request::Storage { op: StorageOp::Insert, cursor_id: cursor, arg: k, record })
    }

    fn exec_new_rowid(&mut self, c: Connection, r: &Reply, cursor: usize, dest: usize) -> (res: Result<Outcome, VmError>)
        requires
            old(self).pc < usize::MAX,
        ensures
            reaches(new_rowid_insn(old(self)@, c, r@, cursor, dest as int), final(self)@, c, res),
            final(self).ended_coroutine == old(self).ended_coroutine,
    {
        proof {
            reveal(new_rowid_insn);
        }
        if dest >= self.registers.len() {
            return Err(VmError::Internal);
        }
        if self.rowid_phase == 0 {
            match r {
                Reply::Ready => {
                    self.rowid_phase = 1;
                    Ok(Outcome::Need(Request::ReadRowId { cursor_id: cursor }))
                },
                Reply::Pending => Ok(Outcome::Stop(StepResult::IO)),
                _ => Ok(Outcome::Need(Request::Move { op: CursorMove::Last, cursor_id: cursor })),
            }
        } else if self.rowid_phase == 1 {
            match r {
                Reply::RowId(last) => match crate::cast::next_rowid(*last) {
                    Some(id) => {
                        self.rowid_phase = 0;
                        self.rowid_attempts = 0;
                        self.store(c, dest, Value::Integer(id))
                    },
                    None => {
                        self.rowid_phase = 2;
                        self.rowid_attempts = 0;
                        Ok(Outcome::Need(Request::RandomRowid))
                    },
                },
                _ => Ok(Outcome::Need(Request::ReadRowId { cursor_id: cursor })),
            }
        } else if self.rowid_phase == 2 {
            match r {
                Reply::RowId(Some(x)) => {
                    if *x >= 1 && self.rowid_attempts < MAX_ROWID_ATTEMPTS {
                        self.rowid_phase = 3;
                        self.rowid_attempts = self.rowid_attempts + 1;
                        self.rowid_candidate = *x;
                        Ok(Outcome::Need(Request::SeekRowId { cursor_id: cursor, rowid: *x }))
                    } else {
                        self.rowid_phase = 0;
                        self.rowid_attempts = 0;
                        Err(VmError::Internal)
                    }
                },
                _ => Ok(Outcome::Need(Request::RandomRowid)),
            }
        } else {
            match r {
                Reply::Found(false) => {
                    let id = self.rowid_candidate;
                    self.rowid_phase = 0;
                    self.rowid_attempts = 0;
                    self.store(c, dest, Value::Integer(id))
                },
                Reply::Found(true) => {
                    if self.rowid_attempts >= MAX_ROWID_ATTEMPTS {
                        self.rowid_phase = 0;
                        self.rowid_attempts = 0;
                        Err(VmError::Internal)
                    } else {
                        self.rowid_phase = 2;
                        Ok(Outcome::Need(Request::RandomRowid))
                    }
                },
                Reply::Pending => Ok(Outcome::Stop(StepResult::IO)),
                _ => Ok(Outcome::Need(Request::SeekRowId { cursor_id: cursor, rowid: self.rowid_candidate })),
            }
        }
    }

    fn exec_gosub(&mut self, c: Connection, t: BranchOffset, ret: usize) -> (res: Result<Outcome, VmError>)
        ensures
            reaches(gosub_insn(old(self)@, c, t, ret as int), final(self)@, c, res),
            final(self).ended_coroutine == old(self).ended_coroutine,
    {
        proof {
            reveal(gosub_insn);
        }
        if ret >= self.registers.len() || self.pc as u64 >= i64::MAX as u64 {
            return Err(VmError::Internal);
        }
        match t {
            BranchOffset::Offset(o) => {
                let back = (self.pc as u64 + 1) as i64;
                self.set_register(ret, Register::OwnedValue(Value::Integer(back)));
                self.pc = o as usize;
                Ok(Outcome::Next)
            },
            _ => Err(VmError::Internal),
        }
    }

    fn exec_must_be_int(&mut self, c: Connection, reg: usize) -> (res: Result<Outcome, VmError>)
        requires
            old(self).pc < usize::MAX,
        ensures
            reaches(must_be_int_insn(old(self)@, c, reg as int), final(self)@, c, res),
            final(self).ended_coroutine == old(self).ended_coroutine,
    {
        proof {
            reveal(must_be_int_insn);
        }
        let i = match self.value_at(reg) {
            Some(Value::Integer(i)) => Some(*i),
            Some(Value::Float(f)) => {
                let t = crate::value::real_to_i64(f.bits);
                if crate::value::compare_int_real(t, f.bits) == 0 { Some(t) } else { None }
            },
            Some(Value::Text(t)) => crate::cast::parse_i64_exec(t),
            Some(_) => None,
            None => {
                return Err(VmError::Internal);
            },
        };
        match i {
            Some(i) => self.store(c, reg, Value::Integer(i)),
            None => Err(VmError::NotAnInteger),
        }
    }

    fn exec_return(&mut self, c: Connection, ret: usize) -> (res: Result<Outcome, VmError>)
        ensures
            reaches(return_insn(old(self)@, c, ret as int), final(self)@, c, res),
            final(self).ended_coroutine == old(self).ended_coroutine,
    {
        proof {
            reveal(return_insn);
        }
        let p = match self.value_at(ret) {
            Some(Value::Integer(p)) => *p,
            _ => {
                return Err(VmError::Internal);
            },
        };
        if p < 0 || p > u32::MAX as i64 {
            return Err(VmError::Internal);
        }
        self.pc = (p as u32) as usize;
        Ok(Outcome::Next)
    }

    fn exec_if_pos(&mut self, c: Connection, reg: usize, t: BranchOffset, dec: usize) -> (res: Result<Outcome, VmError>)
        requires
            old(self).pc < usize::MAX,
        ensures
            reaches(if_pos_insn(old(self)@, c, reg as int, t, dec as int), final(self)@, c, res),
            final(self).ended_coroutine == old(self).ended_coroutine,
    {
        proof {
            reveal(if_pos_insn);
        }
        let n = match self.value_at(reg) {
            Some(Value::Integer(n)) => *n,
            _ => {
                return Err(VmError::Internal);
            },
        };
        if n <= 0 {
            self.pc = self.pc + 1;
            return Ok(Outcome::Next);
        }
        let m = n as i128 - dec as i128;
        if !fits(m) {
            return Err(VmError::Internal);
        }
        match t {
            BranchOffset::Offset(o) => {
                self.set_register(reg, Register::OwnedValue(Value::Integer(m as i64)));
                self.pc = o as usize;
                Ok(Outcome::Next)
            },
            _ => Err(VmError::Internal),
        }
    }

    fn exec_decr_jump_zero(&mut self, c: Connection, reg: usize, t: BranchOffset) -> (res: Result<Outcome, VmError>)
        requires
            old(self).pc < usize::MAX,
        ensures
            reaches(decr_jump_zero_insn(old(self)@, c, reg as int, t), final(self)@, c, res),
            final(self).ended_coroutine == old(self).ended_coroutine,
    {
        proof {
            reveal(decr_jump_zero_insn);
        }
        let n = match self.value_at(reg) {
            Some(Value::Integer(n)) => *n,
            _ => {
                return Err(VmError::Internal);
            },
        };
        if n == i64::MIN {
            return Err(VmError::Internal);
        }
        if n - 1 == 0 {
            return self.jump(c, t);
        }
        self.set_register(reg, Register::OwnedValue(Value::Integer(n - 1)));
        self.pc = self.pc + 1;
        Ok(Outcome::Next)
    }

    fn exec_move(&mut self, c: Connection, r: &Reply, op: CursorMove, cursor: usize) -> (res: Result<Outcome, VmError>)
        requires
            old(self).pc < usize::MAX,
        ensures
            reaches(move_insn(old(self)@, c, r@, op, cursor), final(self)@, c, res),
            final(self).ended_coroutine == old(self).ended_coroutine,
    {
        proof {
            reveal(move_insn);
        }
        match r {
            Reply::Ready => self.advance(c),
            Reply::Pending => Ok(Outcome::Stop(StepResult::IO)),
            _ => Ok(Outcome::Need(Request::Move { op, cursor_id: cursor })),
        }
    }

    fn exec_await(&mut self, c: Connection, r: &Reply, cursor: usize, t: BranchOffset, jump_if_row: bool) -> (res: Result<Outcome, VmError>)
        requires
            old(self).pc < usize::MAX,
        ensures
            reaches(await_insn(old(self)@, c, r@, cursor, t, jump_if_row), final(self)@, c, res),
            final(self).ended_coroutine == old(self).ended_coroutine,
    {
        proof {
            reveal(await_insn);
        }
        match r {
            Reply::Found(has_row) => self.branch(c, *has_row == jump_if_row, t),
            _ => Ok(Outcome::Need(Request::HasRow { cursor_id: cursor })),
        }
    }

    fn exec_idx(&mut self, c: Connection, r: &Reply, op: CmpOp, cursor: usize, start: usize, n: usize, t: BranchOffset) -> (res: Result<Outcome, VmError>)
        requires
            old(self).pc < usize::MAX,
        ensures
            reaches(idx_insn(old(self)@, c, r@, op, cursor, start as int, n as int, t), final(self)@, c, res),
            final(self).ended_coroutine == old(self).ended_coroutine,
    {
        proof {
            reveal(idx_insn);
        }
        let ghost s = self@;
        let probe = match make_owned_record(&self.registers, start, n) {
            Some(p) => p,
            None => {
                proof {
                    let k = choose|k: int| 0 <= k < n && !(start + k < self.registers@.len() && (#[trigger] self.registers@[start + k]) is OwnedValue);
                    assert(val_at(s, start + k) is None);
                }
                return Err(VmError::Internal);
            },
        };
        assert forall|k: int| 0 <= k < n implies #[trigger] val_at(s, start + k) is Some by {
            assert(self.registers@[start + k] is OwnedValue);
        }
        assert(values_view(probe@).len() == n);
        assert forall|j: int| 0 <= j < n implies (#[trigger] probe@[j])@ == val_at(s, start + j)->0 by {
            assert(values_view(probe@)[j] == probe@[j]@);
            assert(self.registers@[start + j] is OwnedValue);
        }
        match r {
            Reply::Record(None) => self.jump(c, t),
            Reply::Record(Some(rec)) => {
                if rec.len() < n {
                    return Err(VmError::Internal);
                }
                let mut k: usize = 0;
                let mut all = true;
                while k < n
                    invariant
                        s == self@,
                        k <= n,
                        n <= rec@.len(),
                        probe@.len() == n,
                        forall|j: int| 0 <= j < n ==> (#[trigger] probe@[j])@ == val_at(s, start + j)->0,
                        all == (forall|j: int| 0 <= j < k ==> cmp_holds(op, value_cmp((#[trigger] rec@[j])@, val_at(s, start + j)->0))),
                    decreases n - k,
                {
                    let o = compare_values(&rec[k], &probe[k]);
                    let holds = match op {
                        CmpOp::Eq => o == 0,
                        CmpOp::Ne => o != 0,
                        CmpOp::Lt => o < 0,
                        CmpOp::Le => o <= 0,
                        CmpOp::Gt => o > 0,
                        CmpOp::Ge => o >= 0,
                    };
                    assert(holds == cmp_holds(op, value_cmp(rec@[k as int]@, val_at(s, start + k)->0)));
                    all = all && holds;
                    k = k + 1;
                }
                proof {
                    let rv = values_view(rec@);
                    assert forall|j: int| 0 <= j < n implies (#[trigger] rv[j]) == rec@[j]@ by {}
                    if all {
                        assert forall|j: int| 0 <= j < n implies cmp_holds(op, value_cmp(#[trigger] rv[j], val_at(s, start + j)->0)) by {
                            assert(rv[j] == rec@[j]@);
                            assert(cmp_holds(op, value_cmp(rec@[j]@, val_at(s, start + j)->0)));
                        }
                    } else {
                        let j = choose|j: int| 0 <= j < n && !cmp_holds(op, value_cmp((#[trigger] rec@[j])@, val_at(s, start + j)->0));
                        assert(rv[j] == rec@[j]@);
                    }
                    assert(all == idx_holds(s, rv, start as int, n as int, op));
                }
                self.branch(c, all, t)
            },
            _ => Ok(Outcome::Need(Request::ReadRecord { cursor_id: cursor })),
        }
    }

    fn exec_function(&mut self, c: Connection, f: ScalarFunc, start: usize, count: usize, dest: usize) -> (res: Result<Outcome, VmError>)
        requires
            old(self).pc < usize::MAX,
        ensures
            reaches(function_insn(old(self)@, c, f, start as int, count as int, dest as int), final(self)@, c, res),
            final(self).ended_coroutine == old(self).ended_coroutine,
    {
        proof {
            reveal(function_insn);
        }
        let ghost s = self@;
        match make_owned_record(&self.registers, start, count) {
            Some(args) => {
                assert forall|k: int| 0 <= k < count implies #[trigger] val_at(s, start + k) is Some by {
                    assert(self.registers@[start + k] is OwnedValue);
                }
                assert(values_view(args@) =~= Seq::new(count as nat, |k: int| val_at(s, start + k)->0));
                match exec_scalar(f, &args) {
                    Ok(v) => self.store(c, dest, v),
                    Err(e) => Err(e),
                }
            },
            None => {
                proof {
                    let k = choose|k: int| 0 <= k < count && !(start + k < self.registers@.len() && (#[trigger] self.registers@[start + k]) is OwnedValue);
                    assert(val_at(s, start + k) is None);
                }
                Err(VmError::Internal)
            },
        }
    }

    fn exec_cast_insn(&mut self, c: Connection, r: &Reply, reg: usize, a: crate::cast::Affinity) -> (res: Result<Outcome, VmError>)
        requires
            old(self).pc < usize::MAX,
        ensures
            reaches(cast_insn(old(self)@, c, r@, reg as int, a), final(self)@, c, res),
            final(self).ended_coroutine == old(self).ended_coroutine,
    {
        proof {
            reveal(cast_insn);
        }
        let out = match self.value_at(reg) {
            Some(v) => match crate::cast::exec_cast(v, a) {
                Some(x) => Ok(x),
                None => match r {
                    Reply::Value(x) => Ok(x.duplicate()),
                    _ => Err(Request::CastReal { value: v.duplicate(), affinity: a }),
                },
            },
            None => {
                return Err(VmError::Internal);
            },
        };
        match out {
            Ok(x) => self.store(c, reg, x),
            Err(q) => Ok(Outcome::Need(q)),
        }
    }
}

impl Program {
    /// Runs the program from the current program counter until it produces a
    /// row, finishes, is interrupted, is busy, waits for I/O, or needs the
    /// host to perform a [`Request`]. `reply` answers the request returned
    /// by the previous call (`Reply::Nothing` if there was none).
    pub fn step(&self, state: &mut ProgramState, conn: &mut Connection, reply: Reply) -> (res: Result<Outcome, VmError>)
        requires
            old(state).wf(),
        ensures
            reaches(run(self.insns@, old(state)@, *old(conn), reply@, STEP_FUEL as nat), final(state)@, *final(conn), res),
            final(state).wf(),
    {
        let mut fuel: u64 = STEP_FUEL;
        let mut r = reply;
        loop
            invariant
                state.wf(),
                run(self.insns@, old(state)@, *old(conn), reply@, STEP_FUEL as nat)
                    == run(self.insns@, state@, *conn, r@, fuel as nat),
            decreases fuel,
        {
            if state.interrupted {
                return Ok(Outcome::Stop(StepResult::Interrupt));
            }
            let res = self.execute_insn(state, conn, &r);
            match res {
                Ok(Outcome::Next) => {
                    if fuel == 0 {
                        return res;
                    }
                    fuel = fuel - 1;
                    r = Reply::Nothing;
                },
                _ => {
                    return res;
                },
            }
        }
    }
}

/// `n` NULL registers.
pub open spec fn null_regs(n: nat) -> Seq<RegisterView> {
    Seq::new(n, |i: int| RegisterView::Value(ValueView::Null))
}

fn null_registers(n: usize) -> (r: Vec<Register>)
    ensures
        regs_view(r@) == null_regs(n as nat),
{
    let mut r: Vec<Register> = Vec::new();
    let mut k: usize = 0;
    while k < n
        invariant
            k <= n,
            regs_view(r@) =~= null_regs(k as nat),
        decreases n - k,
    {
        let ghost prev = r@;
        r.push(Register::OwnedValue(Value::Null));
        assert(regs_view(r@) =~= regs_view(prev).push(RegisterView::Value(ValueView::Null)));
        assert(null_regs((k + 1) as nat) =~= null_regs(k as nat).push(RegisterView::Value(ValueView::Null)));
        k = k + 1;
    }
    r
}

impl ProgramState {
    /// A fresh execution state: every register NULL, no coroutine ended, no
    /// parameters bound, at the first instruction.
    pub fn new(max_registers: usize, max_cursors: usize) -> (r: ProgramState)
        ensures
            r.wf(),
            r@.pc == 0,
            r@.registers == null_regs(max_registers as nat),
            r@.ended == Seq::new(max_registers as nat, |i: int| false),
            r@.result_row is None,
            r@.last_compare is None,
            r@.deferred_seek is None,
            r@.deferred_rowid is None,
            !r@.interrupted,
            r@.parameters.len() == 0,
            !r@.checkpointing,
            !r@.read_begun,
            r@.rowid_phase == 0,
            r@.rowid_attempts == 0,
            r@.n_change == 0,
            !r@.count_changes,
            r@.mv_tx_id is None,
            r@.constants.len() == 0,
    {
        let ended = Bitfield::new(max_registers);
        let r = ProgramState {
            pc: 0,
            registers: null_registers(max_registers),
            result_row: None,
            last_compare: None,
            deferred_seek: None,
            deferred_rowid: None,
            ended_coroutine: ended,
            interrupted: false,
            parameters: Vec::new(),
            checkpointing: false,
            read_begun: false,
            rowid_phase: 0,
            rowid_attempts: 0,
            rowid_candidate: 0,
            n_change: 0,
            count_changes: false,
            mv_tx_id: None,
            constants: Vec::new(),
        };
        assert(r@.ended =~= Seq::new(max_registers as nat, |i: int| false));
        assert(r@.parameters =~= Seq::<Option<ValueView>>::empty());
        assert(r@.constants =~= Seq::<ValueView>::empty());
        r
    }

    /// A fresh execution state for `program`: as `new`, with the program's
    /// register and cursor counts and its constants.
    pub fn for_program(program: &Program) -> (r: ProgramState)
        ensures
            r.wf(),
            r@.pc == 0,
            r@.registers == null_regs(program.max_registers as nat),
            r@.constants == values_view(program.constants@),
    {
        let mut r = ProgramState::new(program.max_registers, program.max_cursors);
        r.constants = copy_values(&program.constants);
        r
    }

    /// The number of registers.
    pub fn column_count(&self) -> (r: usize)
        ensures
            r == self@.registers.len(),
    {
        self.registers.len()
    }

    /// The text form of register `i`, if it holds a value.
    pub fn column(&self, i: usize) -> (r: Option<String>)
        ensures
            match r {
                Some(s) => val_at(self@, i as int) is Some && s@ == text_form(val_at(self@, i as int)->0),
                None => val_at(self@, i as int) is None,
            },
    {
        match self.value_at(i) {
            Some(v) => Some(crate::text::chars_to_string(&v.to_text())),
            None => None,
        }
    }

    /// Asks the execution to stop before its next instruction.
    pub fn interrupt(&mut self)
        ensures
            final(self)@ == (StateView { interrupted: true, ..old(self)@ }),
            final(self).ended_coroutine == old(self).ended_coroutine,
    {
        self.interrupted = true;
    }

    /// Whether an interrupt was asked for.
    pub fn is_interrupted(&self) -> (r: bool)
        ensures
            r == self@.interrupted,
    {
        self.interrupted
    }

    /// Binds parameter `index` (1-based) to `value`.
    pub fn bind_at(&mut self, index: usize, value: Value)
        requires
            index >= 1,
        ensures
            final(self).ended_coroutine == old(self).ended_coroutine,
            final(self)@.parameters.len() == if index > old(self)@.parameters.len() { index as int } else { old(self)@.parameters.len() as int },
            final(self)@.parameters[index - 1] == Some(value@),
            forall|k: int| 0 <= k < final(self)@.parameters.len() && k != index - 1 ==>
                final(self)@.parameters[k] == if k < old(self)@.parameters.len() { old(self)@.parameters[k] } else { None },
            final(self)@ == (StateView { parameters: final(self)@.parameters, ..old(self)@ }),
    {
        let ghost old_params = params_view(self.parameters@);
        while self.parameters.len() < index
            invariant
                self.ended_coroutine == old(self).ended_coroutine,
                self@ == (StateView { parameters: self@.parameters, ..old(self)@ }),
                old_params == old(self)@.parameters,
                self@.parameters.len() >= old_params.len(),
                self@.parameters.len() <= if index > old_params.len() { index as int } else { old_params.len() as int },
                forall|k: int| 0 <= k < self@.parameters.len() ==>
                    self@.parameters[k] == if k < old_params.len() { old_params[k] } else { None },
            decreases index - self.parameters.len(),
        {
            let ghost prev = self.parameters@;
            self.parameters.push(None);
            assert(params_view(self.parameters@) =~= params_view(prev).push(None));
        }
        let ghost vv = value@;
        let ghost before = params_view(self.parameters@);
        self.parameters.set(index - 1, Some(value));
        assert(params_view(self.parameters@) =~= before.update(index - 1, Some(vv)));
    }

    /// The value bound to parameter `index` (1-based), if any.
    pub fn get_parameter(&self, index: usize) -> (r: Option<&Value>)
        ensures
            match r {
                Some(v) => 1 <= index <= self@.parameters.len() && self@.parameters[index - 1] == Some(v@),
                None => !(1 <= index <= self@.parameters.len()) || self@.parameters[index - 1] is None,
            },
    {
        if index >= 1 && index <= self.parameters.len() {
            match &self.parameters[index - 1] {
                Some(v) => Some(v),
                None => None,
            }
        } else {
            None
        }
    }

    /// Back to the start for another run: registers NULL, no pending
    /// comparison, deferred seek, ended coroutine, interrupt, parameter or
    /// row.
    pub fn reset(&mut self)
        ensures
            final(self).wf(),
            final(self)@.pc == 0,
            final(self)@.registers == null_regs(old(self)@.registers.len()),
            final(self)@.ended == Seq::new(old(self)@.ended.len(), |i: int| false),
            final(self)@.result_row is None,
            final(self)@.last_compare is None,
            final(self)@.deferred_seek is None,
            final(self)@.deferred_rowid is None,
            !final(self)@.interrupted,
            final(self)@.parameters.len() == 0,
            final(self)@.checkpointing == old(self)@.checkpointing,
            !final(self)@.read_begun,
            final(self)@.rowid_phase == 0,
            final(self)@.rowid_attempts == 0,
    {
        let n = self.registers.len();
        let bits = self.ended_coroutine.capacity();
        self.pc = 0;
        self.registers = null_registers(n);
        self.result_row = None;
        self.last_compare = None;
        self.deferred_seek = None;
        self.deferred_rowid = None;
        self.ended_coroutine = Bitfield::new(bits);
        self.interrupted = false;
        self.parameters = Vec::new();
        self.read_begun = false;
        self.rowid_phase = 0;
        self.rowid_attempts = 0;
        assert(self@.ended =~= Seq::new(old(self)@.ended.len(), |i: int| false));
        assert(self@.parameters =~= Seq::<Option<ValueView>>::empty());
    }
}

} // verus!
