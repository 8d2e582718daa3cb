//! Jump targets, the instruction set, and compiled programs.
use crate::cast::Affinity;
use crate::value::Value;
use vstd::prelude::*;

verus! {

/// A target for a jump instruction.
#[derive(Debug, Clone, Copy, PartialEq, Eq, Hash, Structural)]
pub enum BranchOffset {
    /// A named location, to be resolved to an offset before execution.
    Label(u32),
    /// A direct index into the instruction list.
    Offset(u32),
    /// A temporary value that must be set later.
    Placeholder,
}

impl BranchOffset {
    /// Whether the branch offset is a label.
    pub fn is_label(&self) -> (r: bool)
        ensures
            r == (*self is Label),
    {
        match self {
            BranchOffset::Label(_) => true,
            _ => false,
        }
    }

    /// Whether the branch offset is a resolved offset.
    pub fn is_offset(&self) -> (r: bool)
        ensures
            r == (*self is Offset),
    {
        match self {
            BranchOffset::Offset(_) => true,
            _ => false,
        }
    }

    /// The offset of a resolved branch.
    pub fn to_offset_int(&self) -> (r: u32)
        requires
            *self is Offset,
        ensures
            r == self->Offset_0,
    {
        match self {
            BranchOffset::Offset(v) => *v,
            _ => unreached(),
        }
    }

    /// The label number of an unresolved branch.
    pub fn to_label_value(&self) -> (r: u32)
        requires
            *self is Label,
        ensures
            r == self->Label_0,
    {
        match self {
            BranchOffset::Label(v) => *v,
            _ => unreached(),
        }
    }

    /// The branch as a signed integer, for listings: the label or offset
    /// number (wrapped into `i32`), or `i32::MAX` for a placeholder.
    pub fn to_debug_int(&self) -> (r: i32)
        ensures
            *self is Label ==> r == self->Label_0 as i32,
            *self is Offset ==> r == self->Offset_0 as i32,
            *self is Placeholder ==> r == i32::MAX,
    {
        match self {
            BranchOffset::Label(v) => *v as i32,
            BranchOffset::Offset(v) => *v as i32,
            BranchOffset::Placeholder => i32::MAX,
        }
    }

    /// The resolved offset `n` instructions further on.
    pub fn add(self, n: u32) -> (r: BranchOffset)
        requires
            self is Offset,
            self->Offset_0 + n <= u32::MAX,
        ensures
            r == BranchOffset::Offset((self->Offset_0 + n) as u32),
    {
        BranchOffset::Offset(self.to_offset_int() + n)
    }
}

/// Arithmetic of the `Arith` instruction.
#[derive(Debug, Clone, Copy, PartialEq, Eq, Structural)]
pub enum ArithOp {
    Add,
    Subtract,
    Multiply,
    Divide,
    Remainder,
    BitAnd,
    BitOr,
    ShiftLeft,
    ShiftRight,
    /// Unary: the right operand is ignored.
    BitNot,
    /// SQL three-valued AND.
    And,
    /// SQL three-valued OR.
    Or,
    /// Unary SQL NOT: the right operand is ignored.
    Not,
}

/// The relation tested by a conditional jump.
#[derive(Debug, Clone, Copy, PartialEq, Eq, Structural)]
pub enum CmpOp {
    Eq,
    Ne,
    Lt,
    Le,
    Gt,
    Ge,
}

/// The aggregate function an `AggStep` / `AggFinal` pair computes.
#[derive(Debug, Clone, Copy, PartialEq, Eq, Structural)]
pub enum AggFunc {
    Avg,
    Sum,
    Total,
    /// `count(x)`: rows where `x` is not NULL.
    Count,
    /// `count(*)`: all rows.
    Count0,
    Max,
    Min,
    GroupConcat,
}

/// A cursor movement started by an `...Async` instruction.
#[derive(Debug, Clone, Copy, PartialEq, Eq, Structural)]
pub enum CursorMove {
    Rewind,
    Next,
    Last,
    Prev,
    /// Sort a sorter's rows; then it is on its first row, if any.
    Sort,
}

/// A change to the storage layer that an instruction asks for.
#[derive(Debug, Clone, Copy, PartialEq, Eq, Structural)]
pub enum StorageOp {
    /// Open a read cursor on the B-tree rooted at the page given.
    OpenRead,
    /// Open a write cursor on the B-tree rooted at the page given.
    OpenWrite,
    Close,
    /// Make the cursor read as a row of NULLs.
    NullRow,
    /// Insert the record under the rowid given.
    Insert,
    /// Delete the row under the cursor.
    Delete,
    /// Open a sorter.
    SorterOpen,
    /// Add the record to a sorter.
    SorterInsert,
    /// Open a virtual-table cursor.
    VOpen,
}

/// Work on the database file and schema that an instruction asks for.
#[derive(Debug, Clone, Copy, PartialEq, Eq, Structural)]
pub enum PagerOp {
    /// The number of pages; answered with a value.
    PageCount,
    /// A header cookie (`arg` is its number); answered with a value.
    ReadCookie,
    /// A new B-tree (`arg` holds its flags); answered with its root page.
    CreateBtree,
    /// Free the B-tree rooted at page `arg`; answered with the root page
    /// that moved into its place, if any.
    Destroy,
    /// Drop a table from the schema of database `arg`.
    DropTable,
    /// Re-read the schema of database `arg`.
    ParseSchema,
}

/// The scalar function a `Function` instruction calls.
#[derive(Debug, Clone, Copy, PartialEq, Eq, Structural)]
pub enum ScalarFunc {
    Length,
    OctetLength,
    Typeof,
    Unicode,
    Quote,
    Hex,
    Soundex,
    Upper,
    Lower,
    Abs,
    Instr,
    Nullif,
    Replace,
    Like,
    Trim,
    LTrim,
    RTrim,
    Substr,
    Unhex,
    Zeroblob,
    Char,
    Concat,
    ConcatWs,
    Min,
    Max,
}

/// One bytecode instruction.
#[derive(Debug, Clone, Copy, PartialEq, Eq, Structural)]
pub enum Insn {
    Init { target_pc: BranchOffset },
    Goto { target_pc: BranchOffset },
    Noop,
    Integer { value: i64, dest: usize },
    Null { dest: usize },
    Copy { src_reg: usize, dst_reg: usize },
    Arith { op: ArithOp, lhs: usize, rhs: usize, dest: usize },
    Compare { start_reg_a: usize, start_reg_b: usize, count: usize },
    Jump { target_pc_lt: BranchOffset, target_pc_eq: BranchOffset, target_pc_gt: BranchOffset },
    Cmp { op: CmpOp, lhs: usize, rhs: usize, target_pc: BranchOffset, jump_if_null: bool, null_eq: bool },
    If { reg: usize, target_pc: BranchOffset, jump_if_null: bool },
    IfNot { reg: usize, target_pc: BranchOffset, jump_if_null: bool },
    IsNull { reg: usize, target_pc: BranchOffset },
    NotNull { reg: usize, target_pc: BranchOffset },
    InitCoroutine { yield_reg: usize, jump_on_definition: BranchOffset, start_offset: BranchOffset },
    Yield { yield_reg: usize, end_offset: BranchOffset },
    EndCoroutine { yield_reg: usize },
    Transaction { write: bool },
    AutoCommit { auto_commit: bool, rollback: bool },
    /// Ends execution; a nonzero `err_code` fails with the constraint
    /// described by `descriptions[description]`.
    Halt { err_code: usize, description: usize },
    AggStep { acc_reg: usize, col: usize, delimiter: usize, func: AggFunc },
    AggFinal { register: usize, func: AggFunc },
    ResultRow { start_reg: usize, count: usize },
    MakeRecord { start_reg: usize, count: usize, dest_reg: usize },
    DeferredSeek { index_cursor_id: usize, table_cursor_id: usize },
    SeekRowid { cursor_id: usize, src_reg: usize, target_pc: BranchOffset },
    Column { cursor_id: usize, column: usize, dest: usize },
    RowId { cursor_id: usize, dest: usize },
    Variable { index: usize, dest: usize },
    /// Calls a scalar function on registers `start_reg .. start_reg + arg_count`.
    Function { func: ScalarFunc, start_reg: usize, arg_count: usize, dest: usize },
    /// Saves the address after it in `return_reg` and jumps.
    Gosub { target_pc: BranchOffset, return_reg: usize },
    /// Jumps to the address saved in `return_reg`.
    Return { return_reg: usize },
    /// Jumps when the INTEGER in `reg` is positive, after decreasing it.
    IfPos { reg: usize, target_pc: BranchOffset, decrement_by: usize },
    /// Decrements the INTEGER in `reg`; jumps when it reaches zero.
    DecrJumpZero { reg: usize, target_pc: BranchOffset },
    /// Requires an integer in `reg`: a REAL with no fraction or TEXT that
    /// is an integer is converted, anything else is an error.
    MustBeInt { reg: usize },
    SoftNull { reg: usize },
    /// `lhs || rhs`: the two text forms joined; NULL if either is NULL.
    Concat { lhs: usize, rhs: usize, dest: usize },
    /// The row budget of LIMIT with OFFSET: `limit + max(offset, 0)`, or -1
    /// when the limit is not positive or the sum overflows.
    OffsetLimit { limit_reg: usize, combined_reg: usize, offset_reg: usize },
    /// NULL in `dest` if either operand is NULL, else 0.
    ZeroOrNull { rg1: usize, rg2: usize, dest: usize },
    LastAsync { cursor_id: usize },
    /// Jumps when the cursor moved to its last row is on no row.
    LastAwait { cursor_id: usize, pc_if_empty: BranchOffset },
    PrevAsync { cursor_id: usize },
    /// Jumps back into the loop when the cursor moved onto a row.
    PrevAwait { cursor_id: usize, pc_if_next: BranchOffset },
    /// Seeks an index to the first entry `>=` the key in registers
    /// `start_reg ..`; jumps when there is none.
    SeekGE { cursor_id: usize, start_reg: usize, num_regs: usize, target_pc: BranchOffset },
    /// As `SeekGE`, for the first entry `>` the key.
    SeekGT { cursor_id: usize, start_reg: usize, num_regs: usize, target_pc: BranchOffset },
    /// Jumps when no row has the rowid in `rowid_reg`.
    NotExists { cursor: usize, rowid_reg: usize, target_pc: BranchOffset },
    OpenReadAsync { cursor_id: usize, root_page: usize },
    OpenWriteAsync { cursor_id: usize, root_page: usize },
    Close { cursor_id: usize },
    NullRow { cursor_id: usize },
    /// Inserts the record in `record_reg` under the INTEGER rowid in `key_reg`.
    InsertAsync { cursor: usize, key_reg: usize, record_reg: usize },
    InsertAwait { cursor_id: usize },
    DeleteAsync { cursor_id: usize },
    DeleteAwait { cursor_id: usize },
    /// A rowid for a new row in `rowid_reg`: one past the largest, or a
    /// random unused one (up to 100 tries) once that overflows.
    NewRowid { cursor: usize, rowid_reg: usize },
    BitNot { reg: usize, dest: usize },
    ShiftLeft { lhs: usize, rhs: usize, dest: usize },
    ShiftRight { lhs: usize, rhs: usize, dest: usize },
    And { lhs: usize, rhs: usize, dest: usize },
    Or { lhs: usize, rhs: usize, dest: usize },
    Not { reg: usize, dest: usize },
    SorterOpen { cursor_id: usize },
    SorterInsert { cursor_id: usize, record_reg: usize },
    /// Sorts; jumps when the sorter is empty.
    SorterSort { cursor_id: usize, pc_if_empty: BranchOffset },
    /// Jumps back into the loop when the sorter moved onto a row.
    SorterNext { cursor_id: usize, pc_if_next: BranchOffset },
    /// The sorter's current record, into `dest_reg`.
    SorterData { cursor_id: usize, dest_reg: usize },
    VOpenAsync { cursor_id: usize },
    /// Starts a virtual-table scan with `arg_count` arguments from
    /// `args_reg`; jumps when it yields no row.
    VFilter { cursor_id: usize, arg_count: usize, args_reg: usize, pc_if_empty: BranchOffset },
    VColumn { cursor_id: usize, column: usize, dest: usize },
    /// Jumps back into the loop when the virtual table has another row.
    VNext { cursor_id: usize, pc_if_next: BranchOffset },
    /// Loads TEXT constant `index` into `dest`.
    String8 { index: usize, dest: usize },
    /// Loads REAL constant `index` into `dest`.
    Real { index: usize, dest: usize },
    /// Loads BLOB constant `index` into `dest`.
    Blob { index: usize, dest: usize },
    PageCount { db: usize, dest: usize },
    ReadCookie { db: usize, dest: usize, cookie: usize },
    CreateBtree { db: usize, root: usize, flags: usize },
    Destroy { root: usize, former_root_reg: usize },
    DropTable { db: usize },
    ParseSchema { db: usize },
    RewindAsync { cursor_id: usize },
    /// Jumps when the rewound cursor is on no row.
    RewindAwait { cursor_id: usize, pc_if_empty: BranchOffset },
    NextAsync { cursor_id: usize },
    /// Jumps back into the loop when the cursor moved onto a row.
    NextAwait { cursor_id: usize, pc_if_next: BranchOffset },
    /// Jumps when every one of the first `num_regs` columns of the cursor's
    /// record is `>=` the matching register (also when there is no record).
    IdxGE { cursor_id: usize, start_reg: usize, num_regs: usize, target_pc: BranchOffset },
    IdxGT { cursor_id: usize, start_reg: usize, num_regs: usize, target_pc: BranchOffset },
    IdxLE { cursor_id: usize, start_reg: usize, num_regs: usize, target_pc: BranchOffset },
    IdxLT { cursor_id: usize, start_reg: usize, num_regs: usize, target_pc: BranchOffset },
    /// Converts the value in `reg` in place.
    Cast { reg: usize, affinity: Affinity },
}

/// A compiled program: its instructions and the number of registers and
/// cursors it uses.
#[derive(Debug, Clone, PartialEq)]
pub struct Program {
    pub max_registers: usize,
    pub max_cursors: usize,
    pub insns: Vec<Insn>,
    /// An optional comment for each instruction, by address, shown by
    /// `explain`.
    pub comments: Vec<Option<String>>,
    /// The texts that `Halt` instructions refer to by index.
    pub descriptions: Vec<String>,
    /// The TEXT, REAL and BLOB constants that `String8`, `Real` and `Blob`
    /// load by index.
    pub constants: Vec<Value>,
}

} // verus!
