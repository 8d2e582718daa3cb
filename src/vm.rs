//! The execution state and the interpreter loop.
//!
//! The engine never blocks on storage. When an instruction needs the storage
//! layer (a transaction to begin or end, a cursor to seek or read) or real
//! arithmetic, `step` returns a [`Request`] without moving past the
//! instruction; the host performs it and calls `step` again with the
//! matching [`Reply`], which the same instruction then consumes.
use crate::cast::{Affinity, cast_spec};
use crate::program::{
    AggFunc, ArithOp, BranchOffset, CmpOp, CursorMove, Insn, PagerOp, ScalarFunc, StorageOp,
};
use crate::state::{AggView, Bitfield, Register, RegisterView, opt_view, values_view};
use crate::value::{Value, ValueView, chars_cmp_from, real_key, text_form, value_cmp};
use vstd::prelude::*;

verus! {

/// Why `step` handed control back.
#[derive(Debug, Clone, Copy, PartialEq, Eq, Structural)]
pub enum StepResult {
    Done,
    IO,
    Row,
    Interrupt,
    Busy,
}

/// The connection's transaction state.
#[derive(Debug, Clone, Copy, PartialEq, Eq, Structural)]
pub enum TxState {
    /// No transaction is open.
    Idle,
    Read,
    Write,
}

/// The connection-level state that instructions read and change.
#[derive(Debug, Clone, Copy, PartialEq, Eq, Structural)]
pub struct Connection {
    pub tx_state: TxState,
    pub auto_commit: bool,
    /// The number of rows the last finished statement changed.
    pub changes: i64,
    /// Transactions go through the multi-version store instead of the pager.
    pub mvcc: bool,
}

/// An invalid transaction-control request.
#[derive(Debug, Clone, Copy, PartialEq, Eq, Structural)]
pub enum TxFault {
    /// BEGIN while a transaction is already open.
    NestedBegin,
    /// COMMIT with no transaction open.
    NoTxCommit,
    /// ROLLBACK with no transaction open.
    NoTxRollback,
    /// ROLLBACK of an open transaction, which this engine does not do.
    RollbackUnsupported,
}

/// An error that ends the execution.
#[derive(Debug, Clone, Copy, PartialEq, Eq, Structural)]
pub enum VmError {
    /// The program broke the engine's contract (a bad register, an
    /// unresolved jump, `Jump` without `Compare`, ...).
    Internal,
    /// `Halt` with a nonzero error code, and the index of its description
    /// (see `Program::constraint_message`).
    Constraint { code: usize, description: usize },
    /// An integer aggregate overflowed.
    IntegerOverflow,
    /// `MustBeInt` on a value that is not an integer.
    NotAnInteger,
    /// A parameter that was never bound (1-based index).
    Unbound(usize),
    Tx(TxFault),
    /// A virtual-table module reported an error.
    Extension,
}

/// Work the host must do before the current instruction can finish.
#[derive(Debug, Clone, PartialEq)]
pub enum Request {
    /// Begin a read transaction; reply `Ready` or `Busy`.
    BeginRead,
    /// Begin a write transaction; reply `Ready` or `Busy`.
    BeginWrite,
    /// End the read transaction; reply `Ready`.
    EndRead,
    /// End the write transaction, checkpointing as needed; reply `Ready` when
    /// done or `Pending` while I/O is outstanding.
    EndTx,
    /// The rowid under an index cursor; reply `RowId`.
    IndexRowId { cursor_id: usize },
    /// Seek a table cursor to a rowid; reply `Found` or `Pending`.
    SeekRowId { cursor_id: usize, rowid: i64 },
    /// A column of the cursor's current row; reply `Value`.
    ReadColumn { cursor_id: usize, column: usize },
    /// The rowid of the cursor's current row; reply `RowId`.
    ReadRowId { cursor_id: usize },
    /// Move a cursor; reply `Ready`, or `Pending` while I/O is outstanding.
    Move { op: CursorMove, cursor_id: usize },
    /// Seek an index cursor to the first entry standing in relation `op`
    /// (`Ge` or `Gt`) to `key`; reply `Found`, or `Pending`.
    Seek { op: CmpOp, cursor_id: usize, key: Vec<Value> },
    /// Change the storage layer (`arg` is the root page or the rowid, and
    /// `record` the values, where the operation takes them); reply `Ready`,
    /// or `Pending`.
    Storage { op: StorageOp, cursor_id: usize, arg: i64, record: Vec<Value> },
    /// Wait for the cursor's last operation; reply `Ready`, or `Pending`.
    Wait { cursor_id: usize },
    /// Begin a transaction in the multi-version store and record it on the
    /// connection; reply `RowId(Some(id))` with its id.
    BeginMvTx,
    /// Commit the connection's multi-version transactions; reply `Ready`.
    CommitMvTxs,
    /// Work on the file or schema; reply `Value` where the operation
    /// answers with one, else `Ready`; or `Pending`.
    Pager { op: PagerOp, arg: i64 },
    /// Start a virtual-table scan with the arguments given; reply `Found`
    /// (whether it has a row), or `Failed` when the module reports an error.
    VFilter { cursor_id: usize, args: Vec<Value> },
    /// A random candidate rowid, such as `random_rowid` draws; reply
    /// `RowId(Some(..))` with a value of at least 1.
    RandomRowid,
    /// Whether the cursor, its movement complete, is on a row; reply `Found`.
    HasRow { cursor_id: usize },
    /// The record under an index cursor; reply `Record`.
    ReadRecord { cursor_id: usize },
    /// Arithmetic the engine leaves to the numeric library (anything
    /// involving REALs, text, division, or integer overflow); reply `Value`.
    Arith { op: ArithOp, lhs: Value, rhs: Value },
    /// A cast whose result is a REAL the engine does not compute (see
    /// `exec_cast`); reply `Value`.
    CastReal { value: Value, affinity: Affinity },
}

/// The host's answer to a [`Request`].
#[derive(Debug, Clone, PartialEq)]
pub enum Reply {
    Nothing,
    /// The request completed.
    Ready,
    Busy,
    Pending,
    Found(bool),
    RowId(Option<i64>),
    Value(Value),
    /// The cursor's record, if it is on a row.
    Record(Option<Vec<Value>>),
    /// An extension module reported an error.
    Failed,
}

/// What one instruction did.
#[derive(Debug, Clone, PartialEq)]
pub enum Outcome {
    /// Go on with the instruction at the new program counter.
    Next,
    /// Hand control back to the host.
    Stop(StepResult),
    /// The host must do this first; the program counter has not moved.
    Need(Request),
}

pub enum RequestView {
    BeginRead,
    BeginWrite,
    EndRead,
    EndTx,
    IndexRowId { cursor_id: usize },
    SeekRowId { cursor_id: usize, rowid: i64 },
    ReadColumn { cursor_id: usize, column: usize },
    ReadRowId { cursor_id: usize },
    Move { op: CursorMove, cursor_id: usize },
    Seek { op: CmpOp, cursor_id: usize, key: Seq<ValueView> },
    Storage { op: StorageOp, cursor_id: usize, arg: i64, record: Seq<ValueView> },
    Wait { cursor_id: usize },
    RandomRowid,
    BeginMvTx,
    CommitMvTxs,
    Pager { op: PagerOp, arg: i64 },
    VFilter { cursor_id: usize, args: Seq<ValueView> },
    HasRow { cursor_id: usize },
    ReadRecord { cursor_id: usize },
    Arith { op: ArithOp, lhs: ValueView, rhs: ValueView },
    CastReal { value: ValueView, affinity: Affinity },
}

pub enum ReplyView {
    Nothing,
    Ready,
    Busy,
    Pending,
    Found(bool),
    RowId(Option<i64>),
    Value(ValueView),
    Record(Option<Seq<ValueView>>),
    Failed,
}

pub enum OutcomeView {
    Next,
    Stop(StepResult),
    Need(RequestView),
}

impl View for Request {
    type V = RequestView;

    open spec fn view(&self) -> RequestView {
        match self {
            Request::BeginRead => RequestView::BeginRead,
            Request::BeginWrite => RequestView::BeginWrite,
            Request::EndRead => RequestView::EndRead,
            Request::EndTx => RequestView::EndTx,
            Request::IndexRowId { cursor_id } => RequestView::IndexRowId { cursor_id: *cursor_id },
            Request::SeekRowId { cursor_id, rowid } => RequestView::SeekRowId {
                cursor_id: *cursor_id,
                rowid: *rowid,
            },
            Request::ReadColumn { cursor_id, column } => RequestView::ReadColumn {
                cursor_id: *cursor_id,
                column: *column,
            },
            Request::ReadRowId { cursor_id } => RequestView::ReadRowId { cursor_id: *cursor_id },
            Request::Move { op, cursor_id } => RequestView::Move { op: *op, cursor_id: *cursor_id },
            Request::Seek { op, cursor_id, key } => RequestView::Seek { op: *op, cursor_id: *cursor_id, key: values_view(key@) },
            Request::Storage { op, cursor_id, arg, record } => RequestView::Storage {
                op: *op,
                cursor_id: *cursor_id,
                arg: *arg,
                record: values_view(record@),
            },
            Request::Wait { cursor_id } => RequestView::Wait { cursor_id: *cursor_id },
            Request::RandomRowid => RequestView::RandomRowid,
            Request::BeginMvTx => RequestView::BeginMvTx,
            Request::CommitMvTxs => RequestView::CommitMvTxs,
            Request::Pager { op, arg } => RequestView::Pager { op: *op, arg: *arg },
            Request::VFilter { cursor_id, args } => RequestView::VFilter { cursor_id: *cursor_id, args: values_view(args@) },
            Request::HasRow { cursor_id } => RequestView::HasRow { cursor_id: *cursor_id },
            Request::ReadRecord { cursor_id } => RequestView::ReadRecord { cursor_id: *cursor_id },
            Request::Arith { op, lhs, rhs } => RequestView::Arith { op: *op, lhs: lhs@, rhs: rhs@ },
            Request::CastReal { value, affinity } => RequestView::CastReal { value: value@, affinity: *affinity },
        }
    }
}

impl View for Reply {
    type V = ReplyView;

    open spec fn view(&self) -> ReplyView {
        match self {
            Reply::Nothing => ReplyView::Nothing,
            Reply::Ready => ReplyView::Ready,
            Reply::Busy => ReplyView::Busy,
            Reply::Pending => ReplyView::Pending,
            Reply::Found(b) => ReplyView::Found(*b),
            Reply::RowId(r) => ReplyView::RowId(*r),
            Reply::Value(v) => ReplyView::Value(v@),
            Reply::Failed => ReplyView::Failed,
            Reply::Record(r) => ReplyView::Record(match r {
                Some(v) => Some(values_view(v@)),
                None => None,
            }),
        }
    }
}

impl View for Outcome {
    type V = OutcomeView;

    open spec fn view(&self) -> OutcomeView {
        match self {
            Outcome::Next => OutcomeView::Next,
            Outcome::Stop(r) => OutcomeView::Stop(*r),
            Outcome::Need(q) => OutcomeView::Need(q@),
        }
    }
}

/// The mutable state of one execution of a program.
pub struct ProgramState {
    pub pc: usize,
    pub registers: Vec<Register>,
    /// The row produced by the last `ResultRow`.
    pub result_row: Option<Vec<Value>>,
    /// The outcome of the last `Compare`, until a `Jump` consumes it.
    pub last_compare: Option<i8>,
    /// An index cursor and a table cursor: the table cursor must seek to the
    /// index cursor's rowid before its next column or rowid is read.
    pub deferred_seek: Option<(usize, usize)>,
    /// The rowid of a deferred seek, once the index cursor has given it.
    pub deferred_rowid: Option<i64>,
    /// One bit per register: whether the coroutine yielding through it ended.
    pub ended_coroutine: Bitfield,
    pub interrupted: bool,
    /// Bound parameters; entry `i` is parameter `i + 1`.
    pub parameters: Vec<Option<Value>>,
    /// The halt sequence is waiting for a checkpoint to finish.
    pub checkpointing: bool,
    /// `Transaction` has begun a read transaction on its way to a write one.
    pub read_begun: bool,
    /// Where `NewRowid` stands: 0 idle, 1 waiting for the largest rowid,
    /// 2 waiting for a random candidate, 3 waiting to learn whether the
    /// candidate is taken.
    pub rowid_phase: u8,
    /// The random candidates `NewRowid` has drawn so far.
    pub rowid_attempts: u32,
    /// The candidate being checked.
    pub rowid_candidate: i64,
    /// Rows inserted or deleted so far.
    pub n_change: i64,
    /// Whether the end of execution reports `n_change` to the connection.
    pub count_changes: bool,
    /// The multi-version transaction this execution began, if any.
    pub mv_tx_id: Option<i64>,
    /// The program's constants.
    pub constants: Vec<Value>,
}

pub struct StateView {
    pub pc: int,
    pub registers: Seq<RegisterView>,
    pub result_row: Option<Seq<ValueView>>,
    pub last_compare: Option<i8>,
    pub deferred_seek: Option<(usize, usize)>,
    pub deferred_rowid: Option<i64>,
    pub ended: Seq<bool>,
    pub interrupted: bool,
    pub parameters: Seq<Option<ValueView>>,
    pub checkpointing: bool,
    pub read_begun: bool,
    pub rowid_phase: u8,
    pub rowid_attempts: u32,
    pub rowid_candidate: i64,
    pub n_change: i64,
    pub count_changes: bool,
    pub mv_tx_id: Option<i64>,
    pub constants: Seq<ValueView>,
}

pub open spec fn regs_view(r: Seq<Register>) -> Seq<RegisterView> {
    r.map_values(|x: Register| x@)
}

pub open spec fn params_view(p: Seq<Option<Value>>) -> Seq<Option<ValueView>> {
    p.map_values(|x: Option<Value>| opt_view(x))
}

pub open spec fn row_view(r: Option<Vec<Value>>) -> Option<Seq<ValueView>> {
    match r {
        Some(v) => Some(values_view(v@)),
        None => None,
    }
}

impl View for ProgramState {
    type V = StateView;

    open spec fn view(&self) -> StateView {
        StateView {
            pc: self.pc as int,
            registers: regs_view(self.registers@),
            result_row: row_view(self.result_row),
            last_compare: self.last_compare,
            deferred_seek: self.deferred_seek,
            deferred_rowid: self.deferred_rowid,
            ended: self.ended_coroutine.view(),
            interrupted: self.interrupted,
            parameters: params_view(self.parameters@),
            checkpointing: self.checkpointing,
            read_begun: self.read_begun,
            rowid_phase: self.rowid_phase,
            rowid_attempts: self.rowid_attempts,
            rowid_candidate: self.rowid_candidate,
            n_change: self.n_change,
            count_changes: self.count_changes,
            mv_tx_id: self.mv_tx_id,
            constants: values_view(self.constants@),
        }
    }
}

/// The result of executing one instruction.
pub struct Transition {
    pub state: StateView,
    pub conn: Connection,
    pub outcome: Result<OutcomeView, VmError>,
}

// ---------------------------------------------------------------------------
// The meaning of each instruction.
// ---------------------------------------------------------------------------

pub open spec fn val_at(s: StateView, i: int) -> Option<ValueView> {
    if 0 <= i < s.registers.len() && s.registers[i] is Value {
        Some(s.registers[i]->Value_0)
    } else {
        None
    }
}

pub open spec fn fail(s: StateView, c: Connection, e: VmError) -> Transition {
    Transition { state: s, conn: c, outcome: Err(e) }
}

pub open spec fn go_on(s: StateView, c: Connection) -> Transition {
    Transition { state: s, conn: c, outcome: Ok(OutcomeView::Next) }
}

pub open spec fn stop(s: StateView, c: Connection, r: StepResult) -> Transition {
    Transition { state: s, conn: c, outcome: Ok(OutcomeView::Stop(r)) }
}

pub open spec fn need(s: StateView, c: Connection, q: RequestView) -> Transition {
    Transition { state: s, conn: c, outcome: Ok(OutcomeView::Need(q)) }
}

pub open spec fn with_pc(s: StateView, pc: int) -> StateView {
    StateView { pc: pc, ..s }
}

pub open spec fn with_reg(s: StateView, i: int, r: RegisterView) -> StateView {
    StateView { registers: s.registers.update(i, r), ..s }
}

/// Continue at a jump target, which must be resolved.
pub open spec fn jump_to(s: StateView, c: Connection, t: BranchOffset) -> Transition {
    match t {
        BranchOffset::Offset(o) => go_on(with_pc(s, o as int), c),
        _ => fail(s, c, VmError::Internal),
    }
}

/// Write a value register and continue with the next instruction.
pub open spec fn store(s: StateView, c: Connection, dest: int, v: ValueView) -> Transition {
    if 0 <= dest < s.registers.len() {
        go_on(with_pc(with_reg(s, dest, RegisterView::Value(v)), s.pc + 1), c)
    } else {
        fail(s, c, VmError::Internal)
    }
}

pub open spec fn i64_fits(x: int) -> bool {
    i64::MIN <= x <= i64::MAX
}

/// The absolute value of an integer.
pub open spec fn magnitude(x: i64) -> int {
    if x < 0 { -(x as int) } else { x as int }
}

/// Integer arithmetic the engine does itself (division rounds toward zero,
/// the remainder takes the sign of the dividend); `None` leaves it to the host.
pub open spec fn int_arith(op: ArithOp, a: i64, b: i64) -> Option<ValueView> {
    match op {
        ArithOp::Add => if i64_fits(a + b) { Some(ValueView::Integer((a + b) as i64)) } else { None },
        ArithOp::Subtract => if i64_fits(a - b) { Some(ValueView::Integer((a - b) as i64)) } else { None },
        ArithOp::Multiply => if i64_fits(a * b) { Some(ValueView::Integer((a * b) as i64)) } else { None },
        ArithOp::Divide => if b == 0 {
            Some(ValueView::Null)
        } else {
            let q = magnitude(a) / magnitude(b);
            let v = if (a < 0) != (b < 0) { -q } else { q };
            if i64_fits(v) { Some(ValueView::Integer(v as i64)) } else { None }
        },
        ArithOp::Remainder => if b == 0 {
            Some(ValueView::Null)
        } else {
            let m = magnitude(a) % magnitude(b);
            Some(ValueView::Integer((if a < 0 { -m } else { m }) as i64))
        },
        ArithOp::BitAnd => Some(ValueView::Integer(a & b)),
        ArithOp::BitOr => Some(ValueView::Integer(a | b)),
        ArithOp::ShiftLeft => Some(ValueView::Integer(shift(a, b, true))),
        ArithOp::ShiftRight => Some(ValueView::Integer(shift(a, b, false))),
        ArithOp::BitNot => Some(ValueView::Integer(!a)),
        _ => None,
    }
}

/// `x << y` (or `x >> y` when `left` is false) as SQL computes it: a
/// negative count shifts the other way; counts of 64 or more give 0, or -1
/// for a right shift of a negative number.
pub open spec fn shift(x: i64, y: i64, left: bool) -> i64 {
    let l = if y < 0 { !left } else { left };
    let n: int = if y < 0 { -(y as int) } else { y as int };
    if n >= 64 {
        if !l && x < 0 { -1i64 } else { 0i64 }
    } else if l {
        ((x as u64) << (n as u64)) as i64
    } else {
        x >> (n as u64)
    }
}

/// The truth of a value for AND, OR and NOT: `Some(None)` for NULL,
/// `Some(Some(b))` for a number (true when not zero) or a text whose leading
/// integer decides; `None` when the text reads as a real number and the host
/// must decide.
pub open spec fn truth(v: ValueView) -> Option<Option<bool>> {
    match v {
        ValueView::Null => Some(None),
        ValueView::Integer(i) => Some(Some(i != 0)),
        ValueView::Float(b, _) => Some(Some(!real_is_zero(b))),
        _ => if crate::cast::needs_real(text_form(v)) {
            None
        } else {
            Some(Some(crate::cast::text_to_int(text_form(v)) != 0))
        },
    }
}

pub open spec fn bool_value(b: Option<bool>) -> ValueView {
    match b {
        None => ValueView::Null,
        Some(true) => ValueView::Integer(1),
        Some(false) => ValueView::Integer(0),
    }
}

/// AND, OR and NOT in three-valued logic; `None` leaves it to the host.
pub open spec fn logic_local(op: ArithOp, a: ValueView, b: ValueView) -> Option<ValueView> {
    match (truth(a), truth(b)) {
        (Some(x), Some(y)) => Some(bool_value(match op {
            ArithOp::And => if x == Some(false) || y == Some(false) {
                Some(false)
            } else if x is None || y is None {
                None
            } else {
                Some(true)
            },
            ArithOp::Or => if x == Some(true) || y == Some(true) {
                Some(true)
            } else if x is None || y is None {
                None
            } else {
                Some(false)
            },
            _ => match x {
                None => None,
                Some(v) => Some(!v),
            },
        })),
        _ => None,
    }
}

/// What the engine computes itself for `a op b`; `None` leaves it to the host.
pub open spec fn arith_local(op: ArithOp, a: ValueView, b: ValueView) -> Option<ValueView> {
    if op == ArithOp::And || op == ArithOp::Or || op == ArithOp::Not {
        logic_local(op, a, b)
    } else if a is Null || (op != ArithOp::BitNot && b is Null) {
        Some(ValueView::Null)
    } else if a is Integer && b is Integer {
        int_arith(op, a->Integer_0, b->Integer_0)
    } else {
        None
    }
}

#[verifier::opaque]
pub open spec fn arith_insn(s: StateView, c: Connection, r: ReplyView, op: ArithOp, lhs: int, rhs: int, dest: int) -> Transition {
    match (val_at(s, lhs), val_at(s, rhs)) {
        (Some(a), Some(b)) => match arith_local(op, a, b) {
            Some(v) => store(s, c, dest, v),
            None => match r {
                ReplyView::Value(v) => store(s, c, dest, v),
                _ => need(s, c, RequestView::Arith { op, lhs: a, rhs: b }),
            },
        },
        _ => fail(s, c, VmError::Internal),
    }
}

/// Comparison of `count` register pairs, stopping at the first unequal pair.
pub open spec fn compare_regs(s: StateView, a: int, b: int, count: int, i: int) -> int
    decreases count - i,
{
    if i >= count || i < 0 {
        0
    } else {
        let c = value_cmp(val_at(s, a + i)->0, val_at(s, b + i)->0);
        if c != 0 || i + 1 >= count {
            c
        } else {
            compare_regs(s, a, b, count, i + 1)
        }
    }
}

/// Registers `start .. start + count` all hold values.
pub open spec fn values_in(s: StateView, start: int, count: int) -> bool {
    forall|k: int| 0 <= k < count ==> #[trigger] val_at(s, start + k) is Some
}

#[verifier::opaque]
pub open spec fn compare_insn(s: StateView, c: Connection, a: int, b: int, count: int) -> Transition {
    if a + count > b || !values_in(s, a, count) || !values_in(s, b, count) {
        fail(s, c, VmError::Internal)
    } else {
        let lc = if count == 0 { None } else { Some(compare_regs(s, a, b, count, 0) as i8) };
        go_on(StateView { pc: s.pc + 1, last_compare: lc, ..s }, c)
    }
}

#[verifier::opaque]
pub open spec fn jump_insn(s: StateView, c: Connection, lt: BranchOffset, eq: BranchOffset, gt: BranchOffset) -> Transition {
    match s.last_compare {
        None => fail(s, c, VmError::Internal),
        Some(o) => {
            let t = if o < 0 { lt } else if o == 0 { eq } else { gt };
            jump_to(StateView { last_compare: None, ..s }, c, t)
        },
    }
}

pub open spec fn cmp_holds(op: CmpOp, o: int) -> bool {
    match op {
        CmpOp::Eq => o == 0,
        CmpOp::Ne => o != 0,
        CmpOp::Lt => o < 0,
        CmpOp::Le => o <= 0,
        CmpOp::Gt => o > 0,
        CmpOp::Ge => o >= 0,
    }
}

/// Whether a conditional jump on `a op b` is taken.
#[verifier::opaque]
pub open spec fn cmp_jumps(op: CmpOp, a: ValueView, b: ValueView, jump_if_null: bool, null_eq: bool) -> bool {
    if a is Null || b is Null {
        if null_eq && op == CmpOp::Eq {
            a is Null && b is Null
        } else if null_eq && op == CmpOp::Ne {
            !(a is Null && b is Null)
        } else {
            jump_if_null
        }
    } else {
        cmp_holds(op, value_cmp(a, b))
    }
}

pub open spec fn branch(s: StateView, c: Connection, taken: bool, t: BranchOffset) -> Transition {
    if taken {
        jump_to(s, c, t)
    } else {
        go_on(with_pc(s, s.pc + 1), c)
    }
}

pub open spec fn real_is_zero(bits: u64) -> bool {
    bits & 0x7fff_ffff_ffff_ffffu64 == 0
}

/// Whether `If` (with `not == false`) or `IfNot` (with `not == true`) jumps.
#[verifier::opaque]
pub open spec fn if_jumps(v: ValueView, jump_if_null: bool, not: bool) -> bool {
    match v {
        ValueView::Integer(i) => if i == 0 { not } else { !not },
        ValueView::Float(b, _) => if real_is_zero(b) { not } else { !not },
        ValueView::Null => jump_if_null,
        _ => false,
    }
}

#[verifier::opaque]
pub open spec fn init_coroutine_insn(s: StateView, c: Connection, y: int, jod: BranchOffset, so: BranchOffset) -> Transition {
    if !(jod is Offset) || !(so is Offset) || !(0 <= y < s.registers.len()) || !(y < s.ended.len()) {
        fail(s, c, VmError::Internal)
    } else {
        let s1 = StateView {
            registers: s.registers.update(y, RegisterView::Value(ValueView::Integer(so->Offset_0 as i64))),
            ended: s.ended.update(y, false),
            ..s
        };
        go_on(with_pc(s1, if jod->Offset_0 == 0 { s.pc + 1 } else { jod->Offset_0 as int }), c)
    }
}

#[verifier::opaque]
pub open spec fn end_coroutine_insn(s: StateView, c: Connection, y: int) -> Transition {
    match val_at(s, y) {
        Some(ValueView::Integer(p)) => if 1 <= p <= usize::MAX as int + 1 && y < s.ended.len() {
            go_on(StateView { pc: p - 1, ended: s.ended.update(y, true), ..s }, c)
        } else {
            fail(s, c, VmError::Internal)
        },
        _ => fail(s, c, VmError::Internal),
    }
}

#[verifier::opaque]
pub open spec fn yield_insn(s: StateView, c: Connection, y: int, end: BranchOffset) -> Transition {
    match val_at(s, y) {
        Some(ValueView::Integer(p)) => if !(y < s.ended.len()) {
            fail(s, c, VmError::Internal)
        } else if s.ended[y] {
            jump_to(s, c, end)
        } else if 0 <= p <= usize::MAX && s.pc + 1 <= i64::MAX {
            go_on(with_pc(with_reg(s, y, RegisterView::Value(ValueView::Integer((s.pc + 1) as i64))), p as int), c)
        } else {
            fail(s, c, VmError::Internal)
        },
        _ => fail(s, c, VmError::Internal),
    }
}

/// The transaction state a statement needs: a write statement needs `Write`,
/// a read statement at least `Read`.
pub open spec fn tx_target(cur: TxState, write: bool) -> TxState {
    if write || cur == TxState::Write {
        TxState::Write
    } else {
        TxState::Read
    }
}

#[verifier::opaque]
pub open spec fn transaction_insn(s: StateView, c: Connection, r: ReplyView, write: bool) -> Transition {
    let target = tx_target(c.tx_state, write);
    if c.mvcc {
        if s.mv_tx_id is Some {
            go_on(with_pc(s, s.pc + 1), c)
        } else {
            match r {
                ReplyView::RowId(Some(id)) => go_on(StateView { pc: s.pc + 1, mv_tx_id: Some(id), ..s }, c),
                _ => need(s, c, RequestView::BeginMvTx),
            }
        }
    } else if target == c.tx_state {
        go_on(with_pc(s, s.pc + 1), c)
    } else if c.tx_state == TxState::Idle && !s.read_begun {
        match r {
            ReplyView::Ready => if target == TxState::Read {
                go_on(with_pc(s, s.pc + 1), Connection { tx_state: TxState::Read, ..c })
            } else {
                need(StateView { read_begun: true, ..s }, c, RequestView::BeginWrite)
            },
            ReplyView::Busy => stop(s, c, StepResult::Busy),
            _ => need(s, c, RequestView::BeginRead),
        }
    } else {
        match r {
            ReplyView::Ready => go_on(
                StateView { pc: s.pc + 1, read_begun: false, ..s },
                Connection { tx_state: TxState::Write, ..c },
            ),
            ReplyView::Busy => stop(StateView { read_begun: false, ..s }, c, StepResult::Busy),
            _ => need(s, c, RequestView::BeginWrite),
        }
    }
}

/// The end of execution: with auto-commit on, the open transaction ends
/// (a write one through a checkpoint that may take several calls).
#[verifier::opaque]
pub open spec fn halt_seq(s: StateView, c: Connection, r: ReplyView) -> Transition {
    if c.mvcc {
        if c.auto_commit {
            match r {
                ReplyView::Ready => stop(s, c, StepResult::Done),
                _ => need(s, c, RequestView::CommitMvTxs),
            }
        } else {
            stop(s, c, StepResult::Done)
        }
    } else if s.checkpointing || (c.auto_commit && c.tx_state == TxState::Write) {
        match r {
            ReplyView::Ready => stop(
                StateView { checkpointing: false, ..s },
                Connection { tx_state: TxState::Idle, changes: reported_changes(s, c), ..c },
                StepResult::Done,
            ),
            ReplyView::Pending => stop(StateView { checkpointing: true, ..s }, c, StepResult::IO),
            _ => need(s, c, RequestView::EndTx),
        }
    } else if c.auto_commit && c.tx_state == TxState::Read {
        match r {
            ReplyView::Ready => stop(s, Connection { tx_state: TxState::Idle, ..c }, StepResult::Done),
            _ => need(s, c, RequestView::EndRead),
        }
    } else if !c.auto_commit {
        stop(s, Connection { changes: reported_changes(s, c), ..c }, StepResult::Done)
    } else {
        stop(s, c, StepResult::Done)
    }
}

/// The change count the connection holds once execution ends.
pub open spec fn reported_changes(s: StateView, c: Connection) -> i64 {
    if s.count_changes { s.n_change } else { c.changes }
}

/// `InsertAwait` / `DeleteAwait`: once the change completes, it is counted.
#[verifier::opaque]
pub open spec fn counted_wait_insn(s: StateView, c: Connection, r: ReplyView, cursor: usize) -> Transition {
    match r {
        ReplyView::Ready => go_on(
            StateView {
                pc: s.pc + 1,
                n_change: if s.n_change < i64::MAX { (s.n_change + 1) as i64 } else { s.n_change },
                ..s
            },
            c,
        ),
        ReplyView::Pending => stop(s, c, StepResult::IO),
        _ => need(s, c, RequestView::Wait { cursor_id: cursor }),
    }
}

#[verifier::opaque]
pub open spec fn auto_commit_insn(s: StateView, c: Connection, r: ReplyView, ac: bool, rollback: bool) -> Transition {
    if s.checkpointing {
        halt_seq(s, c, r)
    } else if ac != c.auto_commit {
        if rollback {
            fail(s, c, VmError::Tx(TxFault::RollbackUnsupported))
        } else {
            halt_seq(s, Connection { auto_commit: ac, ..c }, r)
        }
    } else if !ac {
        fail(s, c, VmError::Tx(TxFault::NestedBegin))
    } else if rollback {
        fail(s, c, VmError::Tx(TxFault::NoTxRollback))
    } else {
        fail(s, c, VmError::Tx(TxFault::NoTxCommit))
    }
}

pub open spec fn real_zero() -> ValueView {
    ValueView::Float(0, seq!['0', '.', '0'])
}

/// The accumulator an aggregate starts from, given the first input.
pub open spec fn agg_init(f: AggFunc) -> AggView {
    match f {
        AggFunc::Avg => AggView::Avg(real_zero(), 0),
        AggFunc::Sum => AggView::Sum(ValueView::Null),
        AggFunc::Total => AggView::Sum(real_zero()),
        AggFunc::Count => AggView::Count(0),
        AggFunc::Count0 => AggView::Count(0),
        AggFunc::Max => AggView::Max(None),
        AggFunc::Min => AggView::Min(None),
        AggFunc::GroupConcat => AggView::GroupConcat(Seq::empty()),
    }
}

pub open spec fn agg_matches(f: AggFunc, a: AggView) -> bool {
    match f {
        AggFunc::Avg => a is Avg,
        AggFunc::Sum => a is Sum,
        AggFunc::Total => a is Sum,
        AggFunc::Count => a is Count,
        AggFunc::Count0 => a is Count,
        AggFunc::Max => a is Max,
        AggFunc::Min => a is Min,
        AggFunc::GroupConcat => a is GroupConcat,
    }
}

/// How a new value compares with the current extreme of its own kind:
/// -1, 0 or 1; `None` for values of another kind, which are ignored.
pub open spec fn extreme_cmp(m: ValueView, v: ValueView) -> Option<int> {
    match (m, v) {
        (ValueView::Integer(x), ValueView::Integer(y)) => Some(crate::value::cmp_int(y as int, x as int)),
        (ValueView::Float(x, _), ValueView::Float(y, _)) => Some(crate::value::cmp_int(real_key(y) as int, real_key(x) as int)),
        (ValueView::Text(x), ValueView::Text(y)) => Some(chars_cmp_from(y, x, 0)),
        _ => None,
    }
}

/// The running `max` (`want == 1`) or `min` (`want == -1`) after seeing `v`.
pub open spec fn extreme(cur: Option<ValueView>, v: ValueView, want: int) -> Option<ValueView> {
    match cur {
        None => Some(v),
        Some(m) => if extreme_cmp(m, v) == Some(want) { Some(v) } else { Some(m) },
    }
}

/// One accumulation step: the new accumulator, a host request, or an error.
pub enum AggStepView {
    Acc(AggView),
    Host(ValueView, ValueView),
    Overflow,
}

pub open spec fn agg_step(f: AggFunc, a: AggView, v: ValueView, delim: ValueView, r: ReplyView) -> AggStepView {
    match a {
        AggView::Avg(sum, n) => if n == i64::MAX {
            AggStepView::Overflow
        } else {
            match r {
                ReplyView::Value(x) => AggStepView::Acc(AggView::Avg(x, (n + 1) as i64)),
                _ => AggStepView::Host(sum, v),
            }
        },
        AggView::Sum(acc) => match (acc, v) {
            (_, ValueView::Null) => AggStepView::Acc(a),
            (ValueView::Null, ValueView::Integer(_)) => AggStepView::Acc(AggView::Sum(v)),
            (ValueView::Integer(x), ValueView::Integer(y)) => if i64_fits(x + y) {
                AggStepView::Acc(AggView::Sum(ValueView::Integer((x + y) as i64)))
            } else {
                AggStepView::Overflow
            },
            _ => match r {
                ReplyView::Value(x) => AggStepView::Acc(AggView::Sum(x)),
                _ => AggStepView::Host(acc, v),
            },
        },
        AggView::Count(n) => if f == AggFunc::Count && v is Null {
            AggStepView::Acc(a)
        } else if n == i64::MAX {
            AggStepView::Overflow
        } else {
            AggStepView::Acc(AggView::Count((n + 1) as i64))
        },
        AggView::Max(m) => AggStepView::Acc(AggView::Max(extreme(m, v, 1))),
        AggView::Min(m) => AggStepView::Acc(AggView::Min(extreme(m, v, -1))),
        AggView::GroupConcat(t) => AggStepView::Acc(AggView::GroupConcat(
            if t.len() == 0 { text_form(v) } else { t + text_form(delim) + text_form(v) },
        )),
    }
}

#[verifier::opaque]
pub open spec fn agg_step_insn(s: StateView, c: Connection, r: ReplyView, acc: int, col: int, delim: int, f: AggFunc) -> Transition {
    if !(0 <= acc < s.registers.len()) || val_at(s, col) is None || val_at(s, delim) is None {
        fail(s, c, VmError::Internal)
    } else {
        let v = val_at(s, col)->0;
        let start = if s.registers[acc] == RegisterView::Value(ValueView::Null) {
            if (f == AggFunc::Max || f == AggFunc::Min) && !(v is Integer || v is Float || v is Text) {
                None
            } else {
                Some(agg_init(f))
            }
        } else if s.registers[acc] is Aggregate && agg_matches(f, s.registers[acc]->Aggregate_0) {
            Some(s.registers[acc]->Aggregate_0)
        } else {
            None
        };
        match start {
            None => fail(s, c, VmError::Internal),
            Some(a) => match agg_step(f, a, v, val_at(s, delim)->0, r) {
                AggStepView::Acc(a2) => go_on(with_pc(with_reg(s, acc, RegisterView::Aggregate(a2)), s.pc + 1), c),
                AggStepView::Host(x, y) => need(s, c, RequestView::Arith { op: ArithOp::Add, lhs: x, rhs: y }),
                AggStepView::Overflow => fail(s, c, VmError::IntegerOverflow),
            },
        }
    }
}

#[verifier::opaque]
pub open spec fn agg_final_insn(s: StateView, c: Connection, r: ReplyView, reg: int, f: AggFunc) -> Transition {
    if !(0 <= reg < s.registers.len()) {
        fail(s, c, VmError::Internal)
    } else {
        match s.registers[reg] {
            RegisterView::Aggregate(a) => if !agg_matches(f, a) {
                fail(s, c, VmError::Internal)
            } else {
                match a {
                    AggView::Avg(sum, n) => match r {
                        ReplyView::Value(x) => store(s, c, reg, x),
                        _ => need(s, c, RequestView::Arith { op: ArithOp::Divide, lhs: sum, rhs: ValueView::Integer(n) }),
                    },
                    AggView::Sum(acc) => store(s, c, reg, if acc is Integer || acc is Float { acc } else { real_zero() }),
                    AggView::Count(n) => store(s, c, reg, ValueView::Integer(n)),
                    AggView::Max(m) => store(s, c, reg, if m is Some { m->0 } else { ValueView::Null }),
                    AggView::Min(m) => store(s, c, reg, if m is Some { m->0 } else { ValueView::Null }),
                    AggView::GroupConcat(t) => store(s, c, reg, ValueView::Text(t)),
                }
            },
            RegisterView::Value(ValueView::Null) => match f {
                AggFunc::Total => store(s, c, reg, real_zero()),
                AggFunc::Count => store(s, c, reg, ValueView::Integer(0)),
                AggFunc::Count0 => store(s, c, reg, ValueView::Integer(0)),
                _ => store(s, c, reg, ValueView::Null),
            },
            _ => fail(s, c, VmError::Internal),
        }
    }
}

#[verifier::opaque]
pub open spec fn result_row_insn(s: StateView, c: Connection, start: int, count: int) -> Transition {
    if values_in(s, start, count) {
        stop(
            StateView {
                pc: s.pc + 1,
                result_row: Some(Seq::new(count as nat, |k: int| val_at(s, start + k)->0)),
                ..s
            },
            c,
            StepResult::Row,
        )
    } else {
        fail(s, c, VmError::Internal)
    }
}

/// The values of registers `start .. start + count` as a record, stored in
/// `dest`.
#[verifier::opaque]
pub open spec fn make_record_insn(s: StateView, c: Connection, start: int, count: int, dest: int) -> Transition {
    if values_in(s, start, count) && 0 <= dest < s.registers.len() {
        go_on(
            with_pc(
                with_reg(s, dest, RegisterView::Record(Seq::new(count as nat, |k: int| val_at(s, start + k)->0))),
                s.pc + 1,
            ),
            c,
        )
    } else {
        fail(s, c, VmError::Internal)
    }
}

/// `like(pattern, text)`: NULL if either is NULL or the pattern's regular
/// expression does not compile, else 1 or 0.
pub open spec fn like_value(pattern: ValueView, text: ValueView) -> ValueView {
    if pattern is Null || text is Null {
        ValueView::Null
    } else if crate::like::regex_ci_compiles(crate::like::like_regex(text_form(pattern))) {
        ValueView::Integer(
            if crate::like::regex_ci_matches(crate::like::like_regex(text_form(pattern)), text_form(text)) { 1 } else { 0 },
        )
    } else {
        ValueView::Null
    }
}

/// TRIM, LTRIM or RTRIM with one or two arguments.
pub open spec fn trim_call(a: Seq<ValueView>, left: bool, right: bool) -> Result<ValueView, VmError> {
    if a.len() == 1 {
        Ok(crate::functions::trim_spec(a[0], None, left, right))
    } else if a.len() == 2 {
        Ok(crate::functions::trim_spec(a[0], Some(a[1]), left, right))
    } else {
        Err(VmError::Internal)
    }
}

/// The result of a scalar function on its arguments; a wrong number of
/// arguments is an internal error.
pub open spec fn scalar_spec(f: ScalarFunc, a: Seq<ValueView>) -> Result<ValueView, VmError> {
    let n = a.len();
    match f {
        ScalarFunc::Instr => if n == 2 { Ok(crate::functions::instr_value(a[0], a[1])) } else { Err(VmError::Internal) },
        ScalarFunc::Nullif => if n == 2 { Ok(crate::functions::nullif_value(a[0], a[1])) } else { Err(VmError::Internal) },
        ScalarFunc::Like => if n == 2 { Ok(like_value(a[0], a[1])) } else { Err(VmError::Internal) },
        ScalarFunc::Trim => trim_call(a, true, true),
        ScalarFunc::LTrim => trim_call(a, true, false),
        ScalarFunc::RTrim => trim_call(a, false, true),
        ScalarFunc::Substr => if n == 2 || n == 3 {
            Ok(crate::functions::substr_value(a[0], a[1], if n == 3 { Some(a[2]) } else { None }))
        } else {
            Err(VmError::Internal)
        },
        ScalarFunc::Unhex => if n == 1 || n == 2 {
            Ok(crate::functions::unhex_value(a[0], if n == 2 { Some(a[1]) } else { None }))
        } else {
            Err(VmError::Internal)
        },
        ScalarFunc::Zeroblob => if n == 1 { Ok(crate::cast::zeroblob_value(a[0])) } else { Err(VmError::Internal) },
        ScalarFunc::Char => Ok(ValueView::Text(crate::functions::char_codes(a))),
        ScalarFunc::Concat => Ok(ValueView::Text(crate::functions::concat_texts(a))),
        ScalarFunc::ConcatWs => Ok(if n == 0 || a[0] is Null || a[0] is Blob {
            ValueView::Null
        } else {
            ValueView::Text(crate::functions::join_ws(a, text_form(a[0])))
        }),
        ScalarFunc::Min => if n >= 1 { Ok(crate::functions::extreme_of(a, -1)->0) } else { Err(VmError::Internal) },
        ScalarFunc::Max => if n >= 1 { Ok(crate::functions::extreme_of(a, 1)->0) } else { Err(VmError::Internal) },
        ScalarFunc::Replace => if n == 3 {
            Ok(if a[0] is Null || a[1] is Null || a[2] is Null {
                ValueView::Null
            } else {
                ValueView::Text(crate::cast::replace_all(text_form(a[0]), text_form(a[1]), text_form(a[2])))
            })
        } else {
            Err(VmError::Internal)
        },
        _ => if n != 1 {
            Err(VmError::Internal)
        } else {
            let v = a[0];
            match f {
                ScalarFunc::Length => Ok(crate::functions::length_value(v)),
                ScalarFunc::OctetLength => Ok(crate::functions::octet_length_value(v)),
                ScalarFunc::Typeof => Ok(ValueView::Text(crate::functions::typeof_name(v))),
                ScalarFunc::Unicode => Ok(crate::functions::unicode_value(v)),
                ScalarFunc::Quote => Ok(crate::functions::quote_value(v)),
                ScalarFunc::Hex => Ok(crate::functions::hex_value(v)),
                ScalarFunc::Soundex => Ok(ValueView::Text(match v {
                    ValueView::Text(t) => crate::soundex::soundex_of(t),
                    _ => seq!['?', '0', '0', '0'],
                })),
                ScalarFunc::Upper => Ok(match v {
                    ValueView::Text(t) => ValueView::Text(crate::text::upper_of(t)),
                    _ => v,
                }),
                ScalarFunc::Lower => Ok(match v {
                    ValueView::Text(t) => ValueView::Text(crate::text::lower_of(t)),
                    _ => v,
                }),
                _ => match v {
                    ValueView::Integer(x) => if x == i64::MIN {
                        Err(VmError::IntegerOverflow)
                    } else {
                        Ok(ValueView::Integer((if x < 0 { -x } else { x as int }) as i64))
                    },
                    ValueView::Float(b, t) => Ok(if crate::functions::real_below_zero(b) {
                        ValueView::Float(b ^ 0x8000_0000_0000_0000u64, crate::functions::drop_minus(t))
                    } else {
                        ValueView::Float(b, t)
                    }),
                    ValueView::Null => Ok(ValueView::Null),
                    _ => Ok(real_zero()),
                },
            }
        },
    }
}

/// A scalar function call: its arguments from consecutive registers, its
/// result in `dest`.
#[verifier::opaque]
pub open spec fn function_insn(s: StateView, c: Connection, f: ScalarFunc, start: int, count: int, dest: int) -> Transition {
    if values_in(s, start, count) {
        match scalar_spec(f, Seq::new(count as nat, |k: int| val_at(s, start + k)->0)) {
            Ok(v) => store(s, c, dest, v),
            Err(e) => fail(s, c, e),
        }
    } else {
        fail(s, c, VmError::Internal)
    }
}

#[verifier::opaque]
pub open spec fn gosub_insn(s: StateView, c: Connection, t: BranchOffset, ret: int) -> Transition {
    if 0 <= ret < s.registers.len() && s.pc + 1 <= i64::MAX && t is Offset {
        go_on(with_pc(with_reg(s, ret, RegisterView::Value(ValueView::Integer((s.pc + 1) as i64))), t->Offset_0 as int), c)
    } else {
        fail(s, c, VmError::Internal)
    }
}

#[verifier::opaque]
pub open spec fn return_insn(s: StateView, c: Connection, ret: int) -> Transition {
    match val_at(s, ret) {
        Some(ValueView::Integer(p)) => if 0 <= p <= u32::MAX {
            go_on(with_pc(s, p as int), c)
        } else {
            fail(s, c, VmError::Internal)
        },
        _ => fail(s, c, VmError::Internal),
    }
}

#[verifier::opaque]
pub open spec fn if_pos_insn(s: StateView, c: Connection, reg: int, t: BranchOffset, dec: int) -> Transition {
    match val_at(s, reg) {
        Some(ValueView::Integer(n)) => if n > 0 {
            if t is Offset && i64_fits(n - dec) {
                go_on(with_pc(with_reg(s, reg, RegisterView::Value(ValueView::Integer((n - dec) as i64))), t->Offset_0 as int), c)
            } else {
                fail(s, c, VmError::Internal)
            }
        } else {
            go_on(with_pc(s, s.pc + 1), c)
        },
        _ => fail(s, c, VmError::Internal),
    }
}

#[verifier::opaque]
pub open spec fn decr_jump_zero_insn(s: StateView, c: Connection, reg: int, t: BranchOffset) -> Transition {
    match val_at(s, reg) {
        Some(ValueView::Integer(n)) => if n == i64::MIN {
            fail(s, c, VmError::Internal)
        } else if n - 1 == 0 {
            jump_to(s, c, t)
        } else {
            go_on(with_pc(with_reg(s, reg, RegisterView::Value(ValueView::Integer((n - 1) as i64))), s.pc + 1), c)
        },
        _ => fail(s, c, VmError::Internal),
    }
}

/// The integer `MustBeInt` reads from a value, if any.
pub open spec fn as_integer(v: ValueView) -> Option<i64> {
    match v {
        ValueView::Integer(i) => Some(i),
        ValueView::Float(b, _) => if crate::value::int_real_cmp(crate::value::real_to_int(b), b) == 0 {
            Some(crate::value::real_to_int(b))
        } else {
            None
        },
        ValueView::Text(t) => crate::cast::parse_i64(t),
        _ => None,
    }
}

#[verifier::opaque]
pub open spec fn must_be_int_insn(s: StateView, c: Connection, reg: int) -> Transition {
    match val_at(s, reg) {
        Some(v) => match as_integer(v) {
            Some(i) => store(s, c, reg, ValueView::Integer(i)),
            None => fail(s, c, VmError::NotAnInteger),
        },
        None => fail(s, c, VmError::Internal),
    }
}

#[verifier::opaque]
pub open spec fn concat_insn(s: StateView, c: Connection, a: int, b: int, dest: int) -> Transition {
    match (val_at(s, a), val_at(s, b)) {
        (Some(x), Some(y)) => store(s, c, dest, if x is Null || y is Null {
            ValueView::Null
        } else {
            ValueView::Text(text_form(x) + text_form(y))
        }),
        _ => fail(s, c, VmError::Internal),
    }
}

#[verifier::opaque]
pub open spec fn offset_limit_insn(s: StateView, c: Connection, limit: int, combined: int, offset: int) -> Transition {
    match (val_at(s, limit), val_at(s, offset)) {
        (Some(ValueView::Integer(l)), Some(ValueView::Integer(o))) => {
            let o2 = if o < 0 { 0 } else { o as int };
            store(s, c, combined, ValueView::Integer(if l <= 0 || !i64_fits(l + o2) { -1i64 } else { (l + o2) as i64 }))
        },
        _ => fail(s, c, VmError::Internal),
    }
}

#[verifier::opaque]
pub open spec fn zero_or_null_insn(s: StateView, c: Connection, a: int, b: int, dest: int) -> Transition {
    match (val_at(s, a), val_at(s, b)) {
        (Some(x), Some(y)) => store(s, c, dest, if x is Null || y is Null { ValueView::Null } else { ValueView::Integer(0) }),
        _ => fail(s, c, VmError::Internal),
    }
}

/// A request that completes the instruction once the host has done it.
#[verifier::opaque]
pub open spec fn effect_insn(s: StateView, c: Connection, r: ReplyView, q: RequestView) -> Transition {
    match r {
        ReplyView::Ready => go_on(with_pc(s, s.pc + 1), c),
        ReplyView::Pending => stop(s, c, StepResult::IO),
        _ => need(s, c, q),
    }
}

/// The key in registers `start .. start + n`.
pub open spec fn key_of(s: StateView, start: int, n: int) -> Seq<ValueView> {
    Seq::new(n as nat, |k: int| val_at(s, start + k)->0)
}

/// `SeekGE` / `SeekGT`: continue when an entry was found, jump when not.
#[verifier::opaque]
pub open spec fn seek_key_insn(s: StateView, c: Connection, r: ReplyView, op: CmpOp, cursor: usize, start: int, n: int, t: BranchOffset) -> Transition {
    if !values_in(s, start, n) {
        fail(s, c, VmError::Internal)
    } else {
        match r {
            ReplyView::Found(true) => go_on(with_pc(s, s.pc + 1), c),
            ReplyView::Found(false) => jump_to(s, c, t),
            ReplyView::Pending => stop(s, c, StepResult::IO),
            _ => need(s, c, RequestView::Seek { op, cursor_id: cursor, key: key_of(s, start, n) }),
        }
    }
}

/// `InsertAsync`: the rowid must be an INTEGER and the record register a
/// record.
#[verifier::opaque]
pub open spec fn insert_insn(s: StateView, c: Connection, r: ReplyView, cursor: usize, key: int, rec: int) -> Transition {
    match val_at(s, key) {
        Some(ValueView::Integer(k)) => if 0 <= rec < s.registers.len() && s.registers[rec] is Record {
            effect_insn(s, c, r, RequestView::Storage {
                op: StorageOp::Insert,
                cursor_id: cursor,
                arg: k,
                record: s.registers[rec]->Record_0,
            })
        } else {
            fail(s, c, VmError::Internal)
        },
        _ => fail(s, c, VmError::Internal),
    }
}

/// The most random candidates `NewRowid` draws before it gives up.
pub const MAX_ROWID_ATTEMPTS: u32 = 100;

/// `NewRowid`: position on the last row and read its rowid; one past it is
/// the answer unless that overflows, in which case random candidates are
/// drawn and checked until an unused one turns up, at most 100 of them.
#[verifier::opaque]
pub open spec fn new_rowid_insn(s: StateView, c: Connection, r: ReplyView, cursor: usize, dest: int) -> Transition {
    let reset = StateView { rowid_phase: 0, rowid_attempts: 0, ..s };
    if !(0 <= dest < s.registers.len()) {
        fail(s, c, VmError::Internal)
    } else if s.rowid_phase == 0 {
        match r {
            ReplyView::Ready => need(StateView { rowid_phase: 1, ..s }, c, RequestView::ReadRowId { cursor_id: cursor }),
            ReplyView::Pending => stop(s, c, StepResult::IO),
            _ => need(s, c, RequestView::Move { op: CursorMove::Last, cursor_id: cursor }),
        }
    } else if s.rowid_phase == 1 {
        match r {
            ReplyView::RowId(last) => {
                let next: Option<i64> = match last {
                    None => Some(1i64),
                    Some(l) => if l < i64::MAX { Some((l + 1) as i64) } else { None },
                };
                match next {
                    Some(id) => store(reset, c, dest, ValueView::Integer(id)),
                    None => need(StateView { rowid_phase: 2, rowid_attempts: 0, ..s }, c, RequestView::RandomRowid),
                }
            },
            _ => need(s, c, RequestView::ReadRowId { cursor_id: cursor }),
        }
    } else if s.rowid_phase == 2 {
        match r {
            ReplyView::RowId(Some(x)) => if x >= 1 && s.rowid_attempts < MAX_ROWID_ATTEMPTS {
                need(
                    StateView { rowid_phase: 3, rowid_attempts: (s.rowid_attempts + 1) as u32, rowid_candidate: x, ..s },
                    c,
                    RequestView::SeekRowId { cursor_id: cursor, rowid: x },
                )
            } else {
                fail(reset, c, VmError::Internal)
            },
            _ => need(s, c, RequestView::RandomRowid),
        }
    } else {
        match r {
            ReplyView::Found(false) => store(reset, c, dest, ValueView::Integer(s.rowid_candidate)),
            ReplyView::Found(true) => if s.rowid_attempts >= MAX_ROWID_ATTEMPTS {
                fail(reset, c, VmError::Internal)
            } else {
                need(StateView { rowid_phase: 2, ..s }, c, RequestView::RandomRowid)
            },
            ReplyView::Pending => stop(s, c, StepResult::IO),
            _ => need(s, c, RequestView::SeekRowId { cursor_id: cursor, rowid: s.rowid_candidate }),
        }
    }
}

/// A request whose answer says whether the cursor is on a row: jumps when
/// that equals `jump_if_row`; an extension's failure is an error.
#[verifier::opaque]
pub open spec fn ask_branch_insn(s: StateView, c: Connection, r: ReplyView, q: RequestView, t: BranchOffset, jump_if_row: bool) -> Transition {
    match r {
        ReplyView::Found(has_row) => branch(s, c, has_row == jump_if_row, t),
        ReplyView::Pending => stop(s, c, StepResult::IO),
        ReplyView::Failed => fail(s, c, VmError::Extension),
        _ => need(s, c, q),
    }
}

/// `SorterInsert`: the record register must hold a record.
#[verifier::opaque]
pub open spec fn sorter_insert_insn(s: StateView, c: Connection, r: ReplyView, cursor: usize, rec: int) -> Transition {
    if 0 <= rec < s.registers.len() && s.registers[rec] is Record {
        effect_insn(s, c, r, RequestView::Storage {
            op: StorageOp::SorterInsert,
            cursor_id: cursor,
            arg: 0,
            record: s.registers[rec]->Record_0,
        })
    } else {
        fail(s, c, VmError::Internal)
    }
}

/// `SorterData`: the current record into a register.
#[verifier::opaque]
pub open spec fn sorter_data_insn(s: StateView, c: Connection, r: ReplyView, cursor: usize, dest: int) -> Transition {
    if !(0 <= dest < s.registers.len()) {
        fail(s, c, VmError::Internal)
    } else {
        match r {
            ReplyView::Record(Some(vs)) => go_on(with_pc(with_reg(s, dest, RegisterView::Record(vs)), s.pc + 1), c),
            ReplyView::Record(None) => go_on(with_pc(with_reg(s, dest, RegisterView::Value(ValueView::Null)), s.pc + 1), c),
            _ => need(s, c, RequestView::ReadRecord { cursor_id: cursor }),
        }
    }
}

/// `VColumn`: a column of the virtual table's current row.
#[verifier::opaque]
pub open spec fn vcolumn_insn(s: StateView, c: Connection, r: ReplyView, cursor: usize, column: usize, dest: int) -> Transition {
    match r {
        ReplyView::Value(v) => store(s, c, dest, v),
        ReplyView::Failed => fail(s, c, VmError::Extension),
        _ => need(s, c, RequestView::ReadColumn { cursor_id: cursor, column }),
    }
}

/// `VFilter`: the arguments must be values.
#[verifier::opaque]
pub open spec fn vfilter_insn(s: StateView, c: Connection, r: ReplyView, cursor: usize, n: int, start: int, t: BranchOffset) -> Transition {
    if values_in(s, start, n) {
        ask_branch_insn(s, c, r, RequestView::VFilter { cursor_id: cursor, args: key_of(s, start, n) }, t, false)
    } else {
        fail(s, c, VmError::Internal)
    }
}

/// Loading constant `index` into `dest`.
#[verifier::opaque]
pub open spec fn constant_insn(s: StateView, c: Connection, index: int, dest: int) -> Transition {
    if 0 <= index < s.constants.len() {
        store(s, c, dest, s.constants[index])
    } else {
        fail(s, c, VmError::Internal)
    }
}

/// A request answered with a value, stored in `dest`.
#[verifier::opaque]
pub open spec fn ask_value_insn(s: StateView, c: Connection, r: ReplyView, q: RequestView, dest: int) -> Transition {
    match r {
        ReplyView::Value(v) => store(s, c, dest, v),
        ReplyView::Pending => stop(s, c, StepResult::IO),
        _ => need(s, c, q),
    }
}

/// Starting a cursor movement.
#[verifier::opaque]
pub open spec fn move_insn(s: StateView, c: Connection, r: ReplyView, op: CursorMove, cursor: usize) -> Transition {
    match r {
        ReplyView::Ready => go_on(with_pc(s, s.pc + 1), c),
        ReplyView::Pending => stop(s, c, StepResult::IO),
        _ => need(s, c, RequestView::Move { op, cursor_id: cursor }),
    }
}

/// Waiting for a movement: jumps when whether the cursor is on a row equals
/// `jump_if_row`.
#[verifier::opaque]
pub open spec fn await_insn(s: StateView, c: Connection, r: ReplyView, cursor: usize, t: BranchOffset, jump_if_row: bool) -> Transition {
    match r {
        ReplyView::Found(has_row) => branch(s, c, has_row == jump_if_row, t),
        _ => need(s, c, RequestView::HasRow { cursor_id: cursor }),
    }
}

/// Whether every one of the first `n` columns of `rec` stands in relation
/// `op` to the matching register from `start` on.
pub open spec fn idx_holds(s: StateView, rec: Seq<ValueView>, start: int, n: int, op: CmpOp) -> bool {
    forall|k: int| 0 <= k < n ==> cmp_holds(op, value_cmp(#[trigger] rec[k], val_at(s, start + k)->0))
}

/// The index range checks `IdxGE`, `IdxGT`, `IdxLE` and `IdxLT`.
#[verifier::opaque]
pub open spec fn idx_insn(s: StateView, c: Connection, r: ReplyView, op: CmpOp, cursor: usize, start: int, n: int, t: BranchOffset) -> Transition {
    if !values_in(s, start, n) {
        fail(s, c, VmError::Internal)
    } else {
        match r {
            ReplyView::Record(None) => jump_to(s, c, t),
            ReplyView::Record(Some(rec)) => if rec.len() < n {
                fail(s, c, VmError::Internal)
            } else {
                branch(s, c, idx_holds(s, rec, start, n, op), t)
            },
            _ => need(s, c, RequestView::ReadRecord { cursor_id: cursor }),
        }
    }
}

/// CAST of a register in place; a REAL result the engine does not compute
/// comes from the host.
#[verifier::opaque]
pub open spec fn cast_insn(s: StateView, c: Connection, r: ReplyView, reg: int, a: Affinity) -> Transition {
    match val_at(s, reg) {
        Some(v) => match cast_spec(v, a) {
            Some(x) => store(s, c, reg, x),
            None => match r {
                ReplyView::Value(x) => store(s, c, reg, x),
                _ => need(s, c, RequestView::CastReal { value: v, affinity: a }),
            },
        },
        None => fail(s, c, VmError::Internal),
    }
}

#[verifier::opaque]
pub open spec fn seek_rowid_insn(s: StateView, c: Connection, r: ReplyView, cursor: usize, src: int, t: BranchOffset) -> Transition {
    match val_at(s, src) {
        Some(ValueView::Null) => jump_to(s, c, t),
        Some(ValueView::Integer(rowid)) => match r {
            ReplyView::Found(true) => go_on(with_pc(s, s.pc + 1), c),
            ReplyView::Found(false) => jump_to(s, c, t),
            ReplyView::Pending => stop(s, c, StepResult::IO),
            _ => need(s, c, RequestView::SeekRowId { cursor_id: cursor, rowid }),
        },
        _ => fail(s, c, VmError::Internal),
    }
}

/// Resolving an armed deferred seek before a column or rowid read. `None`
/// when nothing is armed.
#[verifier::opaque]
pub open spec fn resolve_deferred(s: StateView, c: Connection, r: ReplyView) -> Option<Transition> {
    match s.deferred_seek {
        None => None,
        Some((index_cursor, table_cursor)) => Some(match s.deferred_rowid {
            None => match r {
                ReplyView::RowId(Some(rowid)) => need(
                    StateView { deferred_rowid: Some(rowid), ..s },
                    c,
                    RequestView::SeekRowId { cursor_id: table_cursor, rowid },
                ),
                ReplyView::RowId(None) => fail(s, c, VmError::Internal),
                _ => need(s, c, RequestView::IndexRowId { cursor_id: index_cursor }),
            },
            Some(rowid) => match r {
                ReplyView::Found(_) => go_on(StateView { deferred_seek: None, deferred_rowid: None, ..s }, c),
                ReplyView::Pending => stop(StateView { deferred_rowid: None, ..s }, c, StepResult::IO),
                _ => need(s, c, RequestView::SeekRowId { cursor_id: table_cursor, rowid }),
            },
        }),
    }
}

#[verifier::opaque]
pub open spec fn column_insn(s: StateView, c: Connection, r: ReplyView, cursor: usize, column: usize, dest: int) -> Transition {
    match resolve_deferred(s, c, r) {
        Some(t) => if t.outcome == Ok::<OutcomeView, VmError>(OutcomeView::Next) {
            need(t.state, t.conn, RequestView::ReadColumn { cursor_id: cursor, column })
        } else {
            t
        },
        None => match r {
            ReplyView::Value(v) => store(s, c, dest, v),
            _ => need(s, c, RequestView::ReadColumn { cursor_id: cursor, column }),
        },
    }
}

#[verifier::opaque]
pub open spec fn rowid_insn(s: StateView, c: Connection, r: ReplyView, cursor: usize, dest: int) -> Transition {
    match resolve_deferred(s, c, r) {
        Some(t) => if t.outcome == Ok::<OutcomeView, VmError>(OutcomeView::Next) {
            need(t.state, t.conn, RequestView::ReadRowId { cursor_id: cursor })
        } else {
            t
        },
        None => match r {
            ReplyView::RowId(Some(id)) => store(s, c, dest, ValueView::Integer(id)),
            ReplyView::RowId(None) => store(s, c, dest, ValueView::Null),
            _ => need(s, c, RequestView::ReadRowId { cursor_id: cursor }),
        },
    }
}

#[verifier::opaque]
pub open spec fn variable_insn(s: StateView, c: Connection, index: int, dest: int) -> Transition {
    if 1 <= index <= s.parameters.len() && s.parameters[index - 1] is Some {
        store(s, c, dest, s.parameters[index - 1]->0)
    } else {
        fail(s, c, VmError::Unbound(index as usize))
    }
}

/// The effect of executing the instruction at the program counter, given the
/// host's reply to the previous request (`Nothing` if none).
#[verifier::opaque]
pub open spec fn insn_step(p: Seq<Insn>, s: StateView, c: Connection, r: ReplyView) -> Transition {
    if !(0 <= s.pc < p.len()) {
        fail(s, c, VmError::Internal)
    } else {
        match p[s.pc] {
            Insn::Init { target_pc } => jump_to(s, c, target_pc),
            Insn::Goto { target_pc } => jump_to(s, c, target_pc),
            Insn::Noop => go_on(with_pc(s, s.pc + 1), c),
            Insn::Integer { value, dest } => store(s, c, dest as int, ValueView::Integer(value)),
            Insn::Null { dest } => store(s, c, dest as int, ValueView::Null),
            Insn::Copy { src_reg, dst_reg } => match val_at(s, src_reg as int) {
                Some(v) => store(s, c, dst_reg as int, v),
                None => fail(s, c, VmError::Internal),
            },
            Insn::Arith { op, lhs, rhs, dest } => arith_insn(s, c, r, op, lhs as int, rhs as int, dest as int),
            Insn::Compare { start_reg_a, start_reg_b, count } => compare_insn(s, c, start_reg_a as int, start_reg_b as int, count as int),
            Insn::Jump { target_pc_lt, target_pc_eq, target_pc_gt } => jump_insn(s, c, target_pc_lt, target_pc_eq, target_pc_gt),
            Insn::Cmp { op, lhs, rhs, target_pc, jump_if_null, null_eq } => match (val_at(s, lhs as int), val_at(s, rhs as int)) {
                (Some(a), Some(b)) => branch(s, c, cmp_jumps(op, a, b, jump_if_null, null_eq), target_pc),
                _ => fail(s, c, VmError::Internal),
            },
            Insn::If { reg, target_pc, jump_if_null } => match val_at(s, reg as int) {
                Some(v) => branch(s, c, if_jumps(v, jump_if_null, false), target_pc),
                None => fail(s, c, VmError::Internal),
            },
            Insn::IfNot { reg, target_pc, jump_if_null } => match val_at(s, reg as int) {
                Some(v) => branch(s, c, if_jumps(v, jump_if_null, true), target_pc),
                None => fail(s, c, VmError::Internal),
            },
            Insn::IsNull { reg, target_pc } => match val_at(s, reg as int) {
                Some(v) => branch(s, c, v is Null, target_pc),
                None => fail(s, c, VmError::Internal),
            },
            Insn::NotNull { reg, target_pc } => match val_at(s, reg as int) {
                Some(v) => branch(s, c, !(v is Null), target_pc),
                None => fail(s, c, VmError::Internal),
            },
            Insn::InitCoroutine { yield_reg, jump_on_definition, start_offset } => init_coroutine_insn(s, c, yield_reg as int, jump_on_definition, start_offset),
            Insn::Yield { yield_reg, end_offset } => yield_insn(s, c, yield_reg as int, end_offset),
            Insn::EndCoroutine { yield_reg } => end_coroutine_insn(s, c, yield_reg as int),
            Insn::Transaction { write } => transaction_insn(s, c, r, write),
            Insn::AutoCommit { auto_commit, rollback } => auto_commit_insn(s, c, r, auto_commit, rollback),
            Insn::Halt { err_code, description } => if err_code != 0 {
                fail(s, c, VmError::Constraint { code: err_code, description })
            } else {
                halt_seq(s, c, r)
            },
            Insn::AggStep { acc_reg, col, delimiter, func } => agg_step_insn(s, c, r, acc_reg as int, col as int, delimiter as int, func),
            Insn::AggFinal { register, func } => agg_final_insn(s, c, r, register as int, func),
            Insn::ResultRow { start_reg, count } => result_row_insn(s, c, start_reg as int, count as int),
            Insn::MakeRecord { start_reg, count, dest_reg } => make_record_insn(s, c, start_reg as int, count as int, dest_reg as int),
            Insn::DeferredSeek { index_cursor_id, table_cursor_id } => go_on(
                StateView { pc: s.pc + 1, deferred_seek: Some((index_cursor_id, table_cursor_id)), deferred_rowid: None, ..s },
                c,
            ),
            Insn::SeekRowid { cursor_id, src_reg, target_pc } => seek_rowid_insn(s, c, r, cursor_id, src_reg as int, target_pc),
            Insn::Column { cursor_id, column, dest } => column_insn(s, c, r, cursor_id, column, dest as int),
            Insn::RowId { cursor_id, dest } => rowid_insn(s, c, r, cursor_id, dest as int),
            Insn::Variable { index, dest } => variable_insn(s, c, index as int, dest as int),
            Insn::Cast { reg, affinity } => cast_insn(s, c, r, reg as int, affinity),
            Insn::Gosub { target_pc, return_reg } => gosub_insn(s, c, target_pc, return_reg as int),
            Insn::Return { return_reg } => return_insn(s, c, return_reg as int),
            Insn::IfPos { reg, target_pc, decrement_by } => if_pos_insn(s, c, reg as int, target_pc, decrement_by as int),
            Insn::DecrJumpZero { reg, target_pc } => decr_jump_zero_insn(s, c, reg as int, target_pc),
            Insn::MustBeInt { reg } => must_be_int_insn(s, c, reg as int),
            Insn::SoftNull { reg } => store(s, c, reg as int, ValueView::Null),
            Insn::Concat { lhs, rhs, dest } => concat_insn(s, c, lhs as int, rhs as int, dest as int),
            Insn::OffsetLimit { limit_reg, combined_reg, offset_reg } => offset_limit_insn(s, c, limit_reg as int, combined_reg as int, offset_reg as int),
            Insn::ZeroOrNull { rg1, rg2, dest } => zero_or_null_insn(s, c, rg1 as int, rg2 as int, dest as int),
            Insn::LastAsync { cursor_id } => move_insn(s, c, r, CursorMove::Last, cursor_id),
            Insn::PrevAsync { cursor_id } => move_insn(s, c, r, CursorMove::Prev, cursor_id),
            Insn::LastAwait { cursor_id, pc_if_empty } => await_insn(s, c, r, cursor_id, pc_if_empty, false),
            Insn::PrevAwait { cursor_id, pc_if_next } => await_insn(s, c, r, cursor_id, pc_if_next, true),
            Insn::SeekGE { cursor_id, start_reg, num_regs, target_pc } => seek_key_insn(s, c, r, CmpOp::Ge, cursor_id, start_reg as int, num_regs as int, target_pc),
            Insn::SeekGT { cursor_id, start_reg, num_regs, target_pc } => seek_key_insn(s, c, r, CmpOp::Gt, cursor_id, start_reg as int, num_regs as int, target_pc),
            Insn::NotExists { cursor, rowid_reg, target_pc } => seek_rowid_insn(s, c, r, cursor, rowid_reg as int, target_pc),
            Insn::OpenReadAsync { cursor_id, root_page } => effect_insn(s, c, r, RequestView::Storage { op: StorageOp::OpenRead, cursor_id, arg: root_page as i64, record: Seq::empty() }),
            Insn::OpenWriteAsync { cursor_id, root_page } => effect_insn(s, c, r, RequestView::Storage { op: StorageOp::OpenWrite, cursor_id, arg: root_page as i64, record: Seq::empty() }),
            Insn::Close { cursor_id } => effect_insn(s, c, r, RequestView::Storage { op: StorageOp::Close, cursor_id, arg: 0, record: Seq::empty() }),
            Insn::NullRow { cursor_id } => effect_insn(s, c, r, RequestView::Storage { op: StorageOp::NullRow, cursor_id, arg: 0, record: Seq::empty() }),
            Insn::DeleteAsync { cursor_id } => effect_insn(s, c, r, RequestView::Storage { op: StorageOp::Delete, cursor_id, arg: 0, record: Seq::empty() }),
            Insn::InsertAwait { cursor_id } => counted_wait_insn(s, c, r, cursor_id),
            Insn::DeleteAwait { cursor_id } => counted_wait_insn(s, c, r, cursor_id),
            Insn::InsertAsync { cursor, key_reg, record_reg } => insert_insn(s, c, r, cursor, key_reg as int, record_reg as int),
            Insn::NewRowid { cursor, rowid_reg } => new_rowid_insn(s, c, r, cursor, rowid_reg as int),
            Insn::BitNot { reg, dest } => arith_insn(s, c, r, ArithOp::BitNot, reg as int, reg as int, dest as int),
            Insn::ShiftLeft { lhs, rhs, dest } => arith_insn(s, c, r, ArithOp::ShiftLeft, lhs as int, rhs as int, dest as int),
            Insn::ShiftRight { lhs, rhs, dest } => arith_insn(s, c, r, ArithOp::ShiftRight, lhs as int, rhs as int, dest as int),
            Insn::And { lhs, rhs, dest } => arith_insn(s, c, r, ArithOp::And, lhs as int, rhs as int, dest as int),
            Insn::Or { lhs, rhs, dest } => arith_insn(s, c, r, ArithOp::Or, lhs as int, rhs as int, dest as int),
            Insn::Not { reg, dest } => arith_insn(s, c, r, ArithOp::Not, reg as int, reg as int, dest as int),
            Insn::SorterOpen { cursor_id } => effect_insn(s, c, r, RequestView::Storage { op: StorageOp::SorterOpen, cursor_id, arg: 0, record: Seq::empty() }),
            Insn::VOpenAsync { cursor_id } => effect_insn(s, c, r, RequestView::Storage { op: StorageOp::VOpen, cursor_id, arg: 0, record: Seq::empty() }),
            Insn::SorterInsert { cursor_id, record_reg } => sorter_insert_insn(s, c, r, cursor_id, record_reg as int),
            Insn::SorterSort { cursor_id, pc_if_empty } => ask_branch_insn(s, c, r, RequestView::Move { op: CursorMove::Sort, cursor_id }, pc_if_empty, false),
            Insn::SorterNext { cursor_id, pc_if_next } => ask_branch_insn(s, c, r, RequestView::Move { op: CursorMove::Next, cursor_id }, pc_if_next, true),
            Insn::VNext { cursor_id, pc_if_next } => ask_branch_insn(s, c, r, RequestView::Move { op: CursorMove::Next, cursor_id }, pc_if_next, true),
            Insn::SorterData { cursor_id, dest_reg } => sorter_data_insn(s, c, r, cursor_id, dest_reg as int),
            Insn::VColumn { cursor_id, column, dest } => vcolumn_insn(s, c, r, cursor_id, column, dest as int),
            Insn::VFilter { cursor_id, arg_count, args_reg, pc_if_empty } => vfilter_insn(s, c, r, cursor_id, arg_count as int, args_reg as int, pc_if_empty),
            Insn::String8 { index, dest } => constant_insn(s, c, index as int, dest as int),
            Insn::Real { index, dest } => constant_insn(s, c, index as int, dest as int),
            Insn::Blob { index, dest } => constant_insn(s, c, index as int, dest as int),
            Insn::PageCount { db, dest } => ask_value_insn(s, c, r, RequestView::Pager { op: PagerOp::PageCount, arg: db as i64 }, dest as int),
            Insn::ReadCookie { db, dest, cookie } => ask_value_insn(s, c, r, RequestView::Pager { op: PagerOp::ReadCookie, arg: cookie as i64 }, dest as int),
            Insn::CreateBtree { db, root, flags } => ask_value_insn(s, c, r, RequestView::Pager { op: PagerOp::CreateBtree, arg: flags as i64 }, root as int),
            Insn::Destroy { root, former_root_reg } => ask_value_insn(s, c, r, RequestView::Pager { op: PagerOp::Destroy, arg: root as i64 }, former_root_reg as int),
            Insn::DropTable { db } => effect_insn(s, c, r, RequestView::Pager { op: PagerOp::DropTable, arg: db as i64 }),
            Insn::ParseSchema { db } => effect_insn(s, c, r, RequestView::Pager { op: PagerOp::ParseSchema, arg: db as i64 }),
            Insn::RewindAsync { cursor_id } => move_insn(s, c, r, CursorMove::Rewind, cursor_id),
            Insn::NextAsync { cursor_id } => move_insn(s, c, r, CursorMove::Next, cursor_id),
            Insn::RewindAwait { cursor_id, pc_if_empty } => await_insn(s, c, r, cursor_id, pc_if_empty, false),
            Insn::NextAwait { cursor_id, pc_if_next } => await_insn(s, c, r, cursor_id, pc_if_next, true),
            Insn::IdxGE { cursor_id, start_reg, num_regs, target_pc } => idx_insn(s, c, r, CmpOp::Ge, cursor_id, start_reg as int, num_regs as int, target_pc),
            Insn::IdxGT { cursor_id, start_reg, num_regs, target_pc } => idx_insn(s, c, r, CmpOp::Gt, cursor_id, start_reg as int, num_regs as int, target_pc),
            Insn::IdxLE { cursor_id, start_reg, num_regs, target_pc } => idx_insn(s, c, r, CmpOp::Le, cursor_id, start_reg as int, num_regs as int, target_pc),
            Insn::IdxLT { cursor_id, start_reg, num_regs, target_pc } => idx_insn(s, c, r, CmpOp::Lt, cursor_id, start_reg as int, num_regs as int, target_pc),
            Insn::Function { func, start_reg, arg_count, dest } => function_insn(s, c, func, start_reg as int, arg_count as int, dest as int),
        }
    }
}

/// The most instructions one call of `step` executes.
pub const STEP_FUEL: u64 = 0xffff_ffff_ffff_ffff;

/// Execution until control returns to the host: instructions run one after
/// another (only the first sees the host's reply) until one stops, asks the
/// host for something, or fails; an interrupt is noticed before each
/// instruction. With no fuel left, `Next` is returned.
pub open spec fn run(p: Seq<Insn>, s: StateView, c: Connection, r: ReplyView, fuel: nat) -> Transition
    decreases fuel,
{
    if s.interrupted {
        stop(s, c, StepResult::Interrupt)
    } else {
        let t = insn_step(p, s, c, r);
        if t.outcome == Ok::<OutcomeView, VmError>(OutcomeView::Next) && fuel > 0 {
            run(p, t.state, t.conn, ReplyView::Nothing, (fuel - 1) as nat)
        } else {
            t
        }
    }
}

/// The effect of handing the instruction at the program counter the given
/// replies, one call each, whatever each call returned.
pub open spec fn drive(p: Seq<Insn>, s: StateView, c: Connection, rs: Seq<ReplyView>) -> Transition
    decreases rs.len(),
{
    if rs.len() == 0 {
        go_on(s, c)
    } else {
        let t = insn_step(p, s, c, rs[0]);
        if rs.len() == 1 {
            t
        } else {
            drive(p, t.state, t.conn, rs.drop_first())
        }
    }
}

} // verus!
