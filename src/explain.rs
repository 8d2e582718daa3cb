//! A readable listing of a program.
use crate::interp::append_chars;
use crate::program::{BranchOffset, Insn, Program};
use crate::text::chars_to_string;
use crate::value::{chars_of, int_text, nat_digits};
use vstd::prelude::*;

verus! {

/// The name of an instruction's opcode.
#[verifier::opaque]
pub open spec fn opcode_name(i: Insn) -> Seq<char> {
    match i {
        Insn::Init { .. } => "Init"@,
        Insn::Goto { .. } => "Goto"@,
        Insn::Noop => "Noop"@,
        Insn::Integer { .. } => "Integer"@,
        Insn::Null { .. } => "Null"@,
        Insn::Copy { .. } => "Copy"@,
        Insn::Arith { .. } => "Arith"@,
        Insn::Compare { .. } => "Compare"@,
        Insn::Jump { .. } => "Jump"@,
        Insn::Cmp { .. } => "Cmp"@,
        Insn::If { .. } => "If"@,
        Insn::IfNot { .. } => "IfNot"@,
        Insn::IsNull { .. } => "IsNull"@,
        Insn::NotNull { .. } => "NotNull"@,
        Insn::InitCoroutine { .. } => "InitCoroutine"@,
        Insn::Yield { .. } => "Yield"@,
        Insn::EndCoroutine { .. } => "EndCoroutine"@,
        Insn::Transaction { .. } => "Transaction"@,
        Insn::AutoCommit { .. } => "AutoCommit"@,
        Insn::Halt { .. } => "Halt"@,
        Insn::AggStep { .. } => "AggStep"@,
        Insn::AggFinal { .. } => "AggFinal"@,
        Insn::ResultRow { .. } => "ResultRow"@,
        Insn::MakeRecord { .. } => "MakeRecord"@,
        Insn::DeferredSeek { .. } => "DeferredSeek"@,
        Insn::SeekRowid { .. } => "SeekRowid"@,
        Insn::Column { .. } => "Column"@,
        Insn::RowId { .. } => "RowId"@,
        Insn::Variable { .. } => "Variable"@,
        Insn::Cast { .. } => "Cast"@,
        Insn::Function { .. } => "Function"@,
        Insn::PageCount { .. } => "PageCount"@,
        Insn::ReadCookie { .. } => "ReadCookie"@,
        Insn::CreateBtree { .. } => "CreateBtree"@,
        Insn::Destroy { .. } => "Destroy"@,
        Insn::DropTable { .. } => "DropTable"@,
        Insn::ParseSchema { .. } => "ParseSchema"@,
        Insn::String8 { .. } => "String8"@,
        Insn::Real { .. } => "Real"@,
        Insn::Blob { .. } => "Blob"@,
        Insn::SorterOpen { .. } => "SorterOpen"@,
        Insn::VOpenAsync { .. } => "VOpenAsync"@,
        Insn::SorterInsert { .. } => "SorterInsert"@,
        Insn::SorterSort { .. } => "SorterSort"@,
        Insn::SorterNext { .. } => "SorterNext"@,
        Insn::VNext { .. } => "VNext"@,
        Insn::SorterData { .. } => "SorterData"@,
        Insn::VColumn { .. } => "VColumn"@,
        Insn::VFilter { .. } => "VFilter"@,
        Insn::BitNot { .. } => "BitNot"@,
        Insn::ShiftLeft { .. } => "ShiftLeft"@,
        Insn::ShiftRight { .. } => "ShiftRight"@,
        Insn::And { .. } => "And"@,
        Insn::Or { .. } => "Or"@,
        Insn::Not { .. } => "Not"@,
        Insn::LastAsync { .. } => "LastAsync"@,
        Insn::LastAwait { .. } => "LastAwait"@,
        Insn::PrevAsync { .. } => "PrevAsync"@,
        Insn::PrevAwait { .. } => "PrevAwait"@,
        Insn::SeekGE { .. } => "SeekGE"@,
        Insn::SeekGT { .. } => "SeekGT"@,
        Insn::NotExists { .. } => "NotExists"@,
        Insn::OpenReadAsync { .. } => "OpenReadAsync"@,
        Insn::OpenWriteAsync { .. } => "OpenWriteAsync"@,
        Insn::Close { .. } => "Close"@,
        Insn::NullRow { .. } => "NullRow"@,
        Insn::InsertAsync { .. } => "InsertAsync"@,
        Insn::InsertAwait { .. } => "InsertAwait"@,
        Insn::DeleteAsync { .. } => "DeleteAsync"@,
        Insn::DeleteAwait { .. } => "DeleteAwait"@,
        Insn::NewRowid { .. } => "NewRowid"@,
        Insn::Concat { .. } => "Concat"@,
        Insn::OffsetLimit { .. } => "OffsetLimit"@,
        Insn::MustBeInt { .. } => "MustBeInt"@,
        Insn::SoftNull { .. } => "SoftNull"@,
        Insn::ZeroOrNull { .. } => "ZeroOrNull"@,
        Insn::Gosub { .. } => "Gosub"@,
        Insn::Return { .. } => "Return"@,
        Insn::IfPos { .. } => "IfPos"@,
        Insn::DecrJumpZero { .. } => "DecrJumpZero"@,
        Insn::RewindAsync { .. } => "RewindAsync"@,
        Insn::RewindAwait { .. } => "RewindAwait"@,
        Insn::NextAsync { .. } => "NextAsync"@,
        Insn::NextAwait { .. } => "NextAwait"@,
        Insn::IdxGE { .. } => "IdxGE"@,
        Insn::IdxGT { .. } => "IdxGT"@,
        Insn::IdxLE { .. } => "IdxLE"@,
        Insn::IdxLT { .. } => "IdxLT"@,
    }
}

fn opcode_str(i: Insn) -> (r: &'static str)
    ensures
        r@ == opcode_name(i),
{
    proof {
        reveal(opcode_name);
    }
    match i {
        Insn::Init { .. } => "Init",
        Insn::Goto { .. } => "Goto",
        Insn::Noop => "Noop",
        Insn::Integer { .. } => "Integer",
        Insn::Null { .. } => "Null",
        Insn::Copy { .. } => "Copy",
        Insn::Arith { .. } => "Arith",
        Insn::Compare { .. } => "Compare",
        Insn::Jump { .. } => "Jump",
        Insn::Cmp { .. } => "Cmp",
        Insn::If { .. } => "If",
        Insn::IfNot { .. } => "IfNot",
        Insn::IsNull { .. } => "IsNull",
        Insn::NotNull { .. } => "NotNull",
        Insn::InitCoroutine { .. } => "InitCoroutine",
        Insn::Yield { .. } => "Yield",
        Insn::EndCoroutine { .. } => "EndCoroutine",
        Insn::Transaction { .. } => "Transaction",
        Insn::AutoCommit { .. } => "AutoCommit",
        Insn::Halt { .. } => "Halt",
        Insn::AggStep { .. } => "AggStep",
        Insn::AggFinal { .. } => "AggFinal",
        Insn::ResultRow { .. } => "ResultRow",
        Insn::MakeRecord { .. } => "MakeRecord",
        Insn::DeferredSeek { .. } => "DeferredSeek",
        Insn::SeekRowid { .. } => "SeekRowid",
        Insn::Column { .. } => "Column",
        Insn::RowId { .. } => "RowId",
        Insn::Variable { .. } => "Variable",
        Insn::Cast { .. } => "Cast",
        Insn::Function { .. } => "Function",
        Insn::PageCount { .. } => "PageCount",
        Insn::ReadCookie { .. } => "ReadCookie",
        Insn::CreateBtree { .. } => "CreateBtree",
        Insn::Destroy { .. } => "Destroy",
        Insn::DropTable { .. } => "DropTable",
        Insn::ParseSchema { .. } => "ParseSchema",
        Insn::String8 { .. } => "String8",
        Insn::Real { .. } => "Real",
        Insn::Blob { .. } => "Blob",
        Insn::SorterOpen { .. } => "SorterOpen",
        Insn::VOpenAsync { .. } => "VOpenAsync",
        Insn::SorterInsert { .. } => "SorterInsert",
        Insn::SorterSort { .. } => "SorterSort",
        Insn::SorterNext { .. } => "SorterNext",
        Insn::VNext { .. } => "VNext",
        Insn::SorterData { .. } => "SorterData",
        Insn::VColumn { .. } => "VColumn",
        Insn::VFilter { .. } => "VFilter",
        Insn::BitNot { .. } => "BitNot",
        Insn::ShiftLeft { .. } => "ShiftLeft",
        Insn::ShiftRight { .. } => "ShiftRight",
        Insn::And { .. } => "And",
        Insn::Or { .. } => "Or",
        Insn::Not { .. } => "Not",
        Insn::LastAsync { .. } => "LastAsync",
        Insn::LastAwait { .. } => "LastAwait",
        Insn::PrevAsync { .. } => "PrevAsync",
        Insn::PrevAwait { .. } => "PrevAwait",
        Insn::SeekGE { .. } => "SeekGE",
        Insn::SeekGT { .. } => "SeekGT",
        Insn::NotExists { .. } => "NotExists",
        Insn::OpenReadAsync { .. } => "OpenReadAsync",
        Insn::OpenWriteAsync { .. } => "OpenWriteAsync",
        Insn::Close { .. } => "Close",
        Insn::NullRow { .. } => "NullRow",
        Insn::InsertAsync { .. } => "InsertAsync",
        Insn::InsertAwait { .. } => "InsertAwait",
        Insn::DeleteAsync { .. } => "DeleteAsync",
        Insn::DeleteAwait { .. } => "DeleteAwait",
        Insn::NewRowid { .. } => "NewRowid",
        Insn::Concat { .. } => "Concat",
        Insn::OffsetLimit { .. } => "OffsetLimit",
        Insn::MustBeInt { .. } => "MustBeInt",
        Insn::SoftNull { .. } => "SoftNull",
        Insn::ZeroOrNull { .. } => "ZeroOrNull",
        Insn::Gosub { .. } => "Gosub",
        Insn::Return { .. } => "Return",
        Insn::IfPos { .. } => "IfPos",
        Insn::DecrJumpZero { .. } => "DecrJumpZero",
        Insn::RewindAsync { .. } => "RewindAsync",
        Insn::RewindAwait { .. } => "RewindAwait",
        Insn::NextAsync { .. } => "NextAsync",
        Insn::NextAwait { .. } => "NextAwait",
        Insn::IdxGE { .. } => "IdxGE",
        Insn::IdxGT { .. } => "IdxGT",
        Insn::IdxLE { .. } => "IdxLE",
        Insn::IdxLT { .. } => "IdxLT",
    }
}

pub open spec fn target(b: BranchOffset) -> int {
    match b {
        BranchOffset::Label(v) => v as i32 as int,
        BranchOffset::Offset(v) => v as i32 as int,
        BranchOffset::Placeholder => i32::MAX as int,
    }
}

pub open spec fn flag(b: bool) -> int {
    if b { 1 } else { 0 }
}

/// The first three operands of an instruction, as listed (registers,
/// cursors, targets and flags; 0 where there is none).
#[verifier::opaque]
pub open spec fn operands(i: Insn) -> (int, int, int) {
    match i {
        Insn::Init { target_pc } => (0, target(target_pc), 0),
        Insn::Goto { target_pc } => (0, target(target_pc), 0),
        Insn::Noop => (0, 0, 0),
        Insn::Integer { value, dest } => (value as int, dest as int, 0),
        Insn::Null { dest } => (0, dest as int, 0),
        Insn::Copy { src_reg, dst_reg } => (src_reg as int, dst_reg as int, 0),
        Insn::Arith { lhs, rhs, dest, .. } => (lhs as int, rhs as int, dest as int),
        Insn::Compare { start_reg_a, start_reg_b, count } => (start_reg_a as int, start_reg_b as int, count as int),
        Insn::Jump { target_pc_lt, target_pc_eq, target_pc_gt } => (target(target_pc_lt), target(target_pc_eq), target(target_pc_gt)),
        Insn::Cmp { lhs, rhs, target_pc, .. } => (lhs as int, rhs as int, target(target_pc)),
        Insn::If { reg, target_pc, jump_if_null } => (reg as int, target(target_pc), flag(jump_if_null)),
        Insn::IfNot { reg, target_pc, jump_if_null } => (reg as int, target(target_pc), flag(jump_if_null)),
        Insn::IsNull { reg, target_pc } => (reg as int, target(target_pc), 0),
        Insn::NotNull { reg, target_pc } => (reg as int, target(target_pc), 0),
        Insn::InitCoroutine { yield_reg, jump_on_definition, start_offset } => (yield_reg as int, target(jump_on_definition), target(start_offset)),
        Insn::Yield { yield_reg, end_offset } => (yield_reg as int, target(end_offset), 0),
        Insn::EndCoroutine { yield_reg } => (yield_reg as int, 0, 0),
        Insn::Transaction { write } => (0, flag(write), 0),
        Insn::AutoCommit { auto_commit, rollback } => (flag(auto_commit), flag(rollback), 0),
        Insn::Halt { err_code, description } => (err_code as int, description as int, 0),
        Insn::AggStep { acc_reg, col, delimiter, .. } => (acc_reg as int, col as int, delimiter as int),
        Insn::AggFinal { register, .. } => (register as int, 0, 0),
        Insn::ResultRow { start_reg, count } => (start_reg as int, count as int, 0),
        Insn::MakeRecord { start_reg, count, dest_reg } => (start_reg as int, count as int, dest_reg as int),
        Insn::DeferredSeek { index_cursor_id, table_cursor_id } => (index_cursor_id as int, table_cursor_id as int, 0),
        Insn::SeekRowid { cursor_id, src_reg, target_pc } => (cursor_id as int, src_reg as int, target(target_pc)),
        Insn::Column { cursor_id, column, dest } => (cursor_id as int, column as int, dest as int),
        Insn::RowId { cursor_id, dest } => (cursor_id as int, dest as int, 0),
        Insn::Variable { index, dest } => (index as int, dest as int, 0),
        Insn::Cast { reg, .. } => (reg as int, 0, 0),
        Insn::Function { start_reg, arg_count, dest, .. } => (start_reg as int, arg_count as int, dest as int),
        Insn::PageCount { db, dest } => (db as int, dest as int, 0),
        Insn::ReadCookie { db, dest, cookie } => (db as int, dest as int, cookie as int),
        Insn::CreateBtree { db, root, flags } => (db as int, root as int, flags as int),
        Insn::Destroy { root, former_root_reg } => (root as int, former_root_reg as int, 0),
        Insn::DropTable { db } => (db as int, 0, 0),
        Insn::ParseSchema { db } => (db as int, 0, 0),
        Insn::String8 { index, dest } => (index as int, dest as int, 0),
        Insn::Real { index, dest } => (index as int, dest as int, 0),
        Insn::Blob { index, dest } => (index as int, dest as int, 0),
        Insn::SorterOpen { cursor_id } => (cursor_id as int, 0, 0),
        Insn::VOpenAsync { cursor_id } => (cursor_id as int, 0, 0),
        Insn::SorterInsert { cursor_id, record_reg } => (cursor_id as int, record_reg as int, 0),
        Insn::SorterSort { cursor_id, pc_if_empty } => (cursor_id as int, target(pc_if_empty), 0),
        Insn::SorterNext { cursor_id, pc_if_next } => (cursor_id as int, target(pc_if_next), 0),
        Insn::VNext { cursor_id, pc_if_next } => (cursor_id as int, target(pc_if_next), 0),
        Insn::SorterData { cursor_id, dest_reg } => (cursor_id as int, dest_reg as int, 0),
        Insn::VColumn { cursor_id, column, dest } => (cursor_id as int, column as int, dest as int),
        Insn::VFilter { cursor_id, arg_count, args_reg, pc_if_empty } => (cursor_id as int, target(pc_if_empty), args_reg as int),
        Insn::BitNot { reg, dest } => (reg as int, dest as int, 0),
        Insn::Not { reg, dest } => (reg as int, dest as int, 0),
        Insn::ShiftLeft { lhs, rhs, dest } => (lhs as int, rhs as int, dest as int),
        Insn::ShiftRight { lhs, rhs, dest } => (lhs as int, rhs as int, dest as int),
        Insn::And { lhs, rhs, dest } => (lhs as int, rhs as int, dest as int),
        Insn::Or { lhs, rhs, dest } => (lhs as int, rhs as int, dest as int),
        Insn::LastAsync { cursor_id } => (cursor_id as int, 0, 0),
        Insn::PrevAsync { cursor_id } => (cursor_id as int, 0, 0),
        Insn::LastAwait { cursor_id, pc_if_empty } => (cursor_id as int, target(pc_if_empty), 0),
        Insn::PrevAwait { cursor_id, pc_if_next } => (cursor_id as int, target(pc_if_next), 0),
        Insn::SeekGE { cursor_id, start_reg, target_pc, .. } => (cursor_id as int, target(target_pc), start_reg as int),
        Insn::SeekGT { cursor_id, start_reg, target_pc, .. } => (cursor_id as int, target(target_pc), start_reg as int),
        Insn::NotExists { cursor, rowid_reg, target_pc } => (cursor as int, target(target_pc), rowid_reg as int),
        Insn::OpenReadAsync { cursor_id, root_page } => (cursor_id as int, root_page as int, 0),
        Insn::OpenWriteAsync { cursor_id, root_page } => (cursor_id as int, root_page as int, 0),
        Insn::Close { cursor_id } => (cursor_id as int, 0, 0),
        Insn::NullRow { cursor_id } => (cursor_id as int, 0, 0),
        Insn::InsertAsync { cursor, key_reg, record_reg } => (cursor as int, record_reg as int, key_reg as int),
        Insn::InsertAwait { cursor_id } => (cursor_id as int, 0, 0),
        Insn::DeleteAsync { cursor_id } => (cursor_id as int, 0, 0),
        Insn::DeleteAwait { cursor_id } => (cursor_id as int, 0, 0),
        Insn::NewRowid { cursor, rowid_reg } => (cursor as int, rowid_reg as int, 0),
        Insn::Concat { lhs, rhs, dest } => (lhs as int, rhs as int, dest as int),
        Insn::OffsetLimit { limit_reg, combined_reg, offset_reg } => (limit_reg as int, combined_reg as int, offset_reg as int),
        Insn::MustBeInt { reg } => (reg as int, 0, 0),
        Insn::SoftNull { reg } => (reg as int, 0, 0),
        Insn::ZeroOrNull { rg1, rg2, dest } => (rg1 as int, rg2 as int, dest as int),
        Insn::Gosub { target_pc, return_reg } => (return_reg as int, target(target_pc), 0),
        Insn::Return { return_reg } => (return_reg as int, 0, 0),
        Insn::IfPos { reg, target_pc, decrement_by } => (reg as int, target(target_pc), decrement_by as int),
        Insn::DecrJumpZero { reg, target_pc } => (reg as int, target(target_pc), 0),
        Insn::RewindAsync { cursor_id } => (cursor_id as int, 0, 0),
        Insn::NextAsync { cursor_id } => (cursor_id as int, 0, 0),
        Insn::RewindAwait { cursor_id, pc_if_empty } => (cursor_id as int, target(pc_if_empty), 0),
        Insn::NextAwait { cursor_id, pc_if_next } => (cursor_id as int, target(pc_if_next), 0),
        Insn::IdxGE { cursor_id, start_reg, target_pc, .. } => (cursor_id as int, target(target_pc), start_reg as int),
        Insn::IdxGT { cursor_id, start_reg, target_pc, .. } => (cursor_id as int, target(target_pc), start_reg as int),
        Insn::IdxLE { cursor_id, start_reg, target_pc, .. } => (cursor_id as int, target(target_pc), start_reg as int),
        Insn::IdxLT { cursor_id, start_reg, target_pc, .. } => (cursor_id as int, target(target_pc), start_reg as int),
    }
}

fn flag_exec(b: bool) -> (r: i64)
    ensures
        r == flag(b),
{
    if b { 1 } else { 0 }
}

fn target_exec(b: BranchOffset) -> (r: i64)
    ensures
        r == target(b),
{
    b.to_debug_int() as i64
}

pub open spec fn fits_listing(x: int) -> bool {
    -0x1_0000_0000_0000_0000 < x < 0x1_0000_0000_0000_0000
}

fn operands_exec(i: Insn) -> (r: (i128, i128, i128))
    ensures
        (r.0 as int, r.1 as int, r.2 as int) == operands(i),
        fits_listing(r.0 as int) && fits_listing(r.1 as int) && fits_listing(r.2 as int),
{
    proof {
        reveal(operands);
    }
    match i {
        Insn::Init { target_pc } => (0, target_exec(target_pc) as i128, 0),
        Insn::Goto { target_pc } => (0, target_exec(target_pc) as i128, 0),
        Insn::Noop => (0, 0, 0),
        Insn::Integer { value, dest } => (value as i128, dest as i128, 0),
        Insn::Null { dest } => (0, dest as i128, 0),
        Insn::Copy { src_reg, dst_reg } => (src_reg as i128, dst_reg as i128, 0),
        Insn::Arith { lhs, rhs, dest, .. } => (lhs as i128, rhs as i128, dest as i128),
        Insn::Compare { start_reg_a, start_reg_b, count } => (start_reg_a as i128, start_reg_b as i128, count as i128),
        Insn::Jump { target_pc_lt, target_pc_eq, target_pc_gt } => (target_exec(target_pc_lt) as i128, target_exec(target_pc_eq) as i128, target_exec(target_pc_gt) as i128),
        Insn::Cmp { lhs, rhs, target_pc, .. } => (lhs as i128, rhs as i128, target_exec(target_pc) as i128),
        Insn::If { reg, target_pc, jump_if_null } => (reg as i128, target_exec(target_pc) as i128, flag_exec(jump_if_null) as i128),
        Insn::IfNot { reg, target_pc, jump_if_null } => (reg as i128, target_exec(target_pc) as i128, flag_exec(jump_if_null) as i128),
        Insn::IsNull { reg, target_pc } => (reg as i128, target_exec(target_pc) as i128, 0),
        Insn::NotNull { reg, target_pc } => (reg as i128, target_exec(target_pc) as i128, 0),
        Insn::InitCoroutine { yield_reg, jump_on_definition, start_offset } => (yield_reg as i128, target_exec(jump_on_definition) as i128, target_exec(start_offset) as i128),
        Insn::Yield { yield_reg, end_offset } => (yield_reg as i128, target_exec(end_offset) as i128, 0),
        Insn::EndCoroutine { yield_reg } => (yield_reg as i128, 0, 0),
        Insn::Transaction { write } => (0, flag_exec(write) as i128, 0),
        Insn::AutoCommit { auto_commit, rollback } => (flag_exec(auto_commit) as i128, flag_exec(rollback) as i128, 0),
        Insn::Halt { err_code, description } => (err_code as i128, description as i128, 0),
        Insn::AggStep { acc_reg, col, delimiter, .. } => (acc_reg as i128, col as i128, delimiter as i128),
        Insn::AggFinal { register, .. } => (register as i128, 0, 0),
        Insn::ResultRow { start_reg, count } => (start_reg as i128, count as i128, 0),
        Insn::MakeRecord { start_reg, count, dest_reg } => (start_reg as i128, count as i128, dest_reg as i128),
        Insn::DeferredSeek { index_cursor_id, table_cursor_id } => (index_cursor_id as i128, table_cursor_id as i128, 0),
        Insn::SeekRowid { cursor_id, src_reg, target_pc } => (cursor_id as i128, src_reg as i128, target_exec(target_pc) as i128),
        Insn::Column { cursor_id, column, dest } => (cursor_id as i128, column as i128, dest as i128),
        Insn::RowId { cursor_id, dest } => (cursor_id as i128, dest as i128, 0),
        Insn::Variable { index, dest } => (index as i128, dest as i128, 0),
        Insn::Cast { reg, .. } => (reg as i128, 0, 0),
        Insn::Function { start_reg, arg_count, dest, .. } => (start_reg as i128, arg_count as i128, dest as i128),
        Insn::PageCount { db, dest } => (db as i128, dest as i128, 0),
        Insn::ReadCookie { db, dest, cookie } => (db as i128, dest as i128, cookie as i128),
        Insn::CreateBtree { db, root, flags } => (db as i128, root as i128, flags as i128),
        Insn::Destroy { root, former_root_reg } => (root as i128, former_root_reg as i128, 0),
        Insn::DropTable { db } => (db as i128, 0, 0),
        Insn::ParseSchema { db } => (db as i128, 0, 0),
        Insn::String8 { index, dest } => (index as i128, dest as i128, 0),
        Insn::Real { index, dest } => (index as i128, dest as i128, 0),
        Insn::Blob { index, dest } => (index as i128, dest as i128, 0),
        Insn::SorterOpen { cursor_id } => (cursor_id as i128, 0, 0),
        Insn::VOpenAsync { cursor_id } => (cursor_id as i128, 0, 0),
        Insn::SorterInsert { cursor_id, record_reg } => (cursor_id as i128, record_reg as i128, 0),
        Insn::SorterSort { cursor_id, pc_if_empty } => (cursor_id as i128, target_exec(pc_if_empty) as i128, 0),
        Insn::SorterNext { cursor_id, pc_if_next } => (cursor_id as i128, target_exec(pc_if_next) as i128, 0),
        Insn::VNext { cursor_id, pc_if_next } => (cursor_id as i128, target_exec(pc_if_next) as i128, 0),
        Insn::SorterData { cursor_id, dest_reg } => (cursor_id as i128, dest_reg as i128, 0),
        Insn::VColumn { cursor_id, column, dest } => (cursor_id as i128, column as i128, dest as i128),
        Insn::VFilter { cursor_id, arg_count, args_reg, pc_if_empty } => (cursor_id as i128, target_exec(pc_if_empty) as i128, args_reg as i128),
        Insn::BitNot { reg, dest } => (reg as i128, dest as i128, 0),
        Insn::Not { reg, dest } => (reg as i128, dest as i128, 0),
        Insn::ShiftLeft { lhs, rhs, dest } => (lhs as i128, rhs as i128, dest as i128),
        Insn::ShiftRight { lhs, rhs, dest } => (lhs as i128, rhs as i128, dest as i128),
        Insn::And { lhs, rhs, dest } => (lhs as i128, rhs as i128, dest as i128),
        Insn::Or { lhs, rhs, dest } => (lhs as i128, rhs as i128, dest as i128),
        Insn::LastAsync { cursor_id } => (cursor_id as i128, 0, 0),
        Insn::PrevAsync { cursor_id } => (cursor_id as i128, 0, 0),
        Insn::LastAwait { cursor_id, pc_if_empty } => (cursor_id as i128, target_exec(pc_if_empty) as i128, 0),
        Insn::PrevAwait { cursor_id, pc_if_next } => (cursor_id as i128, target_exec(pc_if_next) as i128, 0),
        Insn::SeekGE { cursor_id, start_reg, target_pc, .. } => (cursor_id as i128, target_exec(target_pc) as i128, start_reg as i128),
        Insn::SeekGT { cursor_id, start_reg, target_pc, .. } => (cursor_id as i128, target_exec(target_pc) as i128, start_reg as i128),
        Insn::NotExists { cursor, rowid_reg, target_pc } => (cursor as i128, target_exec(target_pc) as i128, rowid_reg as i128),
        Insn::OpenReadAsync { cursor_id, root_page } => (cursor_id as i128, root_page as i128, 0),
        Insn::OpenWriteAsync { cursor_id, root_page } => (cursor_id as i128, root_page as i128, 0),
        Insn::Close { cursor_id } => (cursor_id as i128, 0, 0),
        Insn::NullRow { cursor_id } => (cursor_id as i128, 0, 0),
        Insn::InsertAsync { cursor, key_reg, record_reg } => (cursor as i128, record_reg as i128, key_reg as i128),
        Insn::InsertAwait { cursor_id } => (cursor_id as i128, 0, 0),
        Insn::DeleteAsync { cursor_id } => (cursor_id as i128, 0, 0),
        Insn::DeleteAwait { cursor_id } => (cursor_id as i128, 0, 0),
        Insn::NewRowid { cursor, rowid_reg } => (cursor as i128, rowid_reg as i128, 0),
        Insn::Concat { lhs, rhs, dest } => (lhs as i128, rhs as i128, dest as i128),
        Insn::OffsetLimit { limit_reg, combined_reg, offset_reg } => (limit_reg as i128, combined_reg as i128, offset_reg as i128),
        Insn::MustBeInt { reg } => (reg as i128, 0, 0),
        Insn::SoftNull { reg } => (reg as i128, 0, 0),
        Insn::ZeroOrNull { rg1, rg2, dest } => (rg1 as i128, rg2 as i128, dest as i128),
        Insn::Gosub { target_pc, return_reg } => (return_reg as i128, target_exec(target_pc) as i128, 0),
        Insn::Return { return_reg } => (return_reg as i128, 0, 0),
        Insn::IfPos { reg, target_pc, decrement_by } => (reg as i128, target_exec(target_pc) as i128, decrement_by as i128),
        Insn::DecrJumpZero { reg, target_pc } => (reg as i128, target_exec(target_pc) as i128, 0),
        Insn::RewindAsync { cursor_id } => (cursor_id as i128, 0, 0),
        Insn::NextAsync { cursor_id } => (cursor_id as i128, 0, 0),
        Insn::RewindAwait { cursor_id, pc_if_empty } => (cursor_id as i128, target_exec(pc_if_empty) as i128, 0),
        Insn::NextAwait { cursor_id, pc_if_next } => (cursor_id as i128, target_exec(pc_if_next) as i128, 0),
        Insn::IdxGE { cursor_id, start_reg, target_pc, .. } => (cursor_id as i128, target_exec(target_pc) as i128, start_reg as i128),
        Insn::IdxGT { cursor_id, start_reg, target_pc, .. } => (cursor_id as i128, target_exec(target_pc) as i128, start_reg as i128),
        Insn::IdxLE { cursor_id, start_reg, target_pc, .. } => (cursor_id as i128, target_exec(target_pc) as i128, start_reg as i128),
        Insn::IdxLT { cursor_id, start_reg, target_pc, .. } => (cursor_id as i128, target_exec(target_pc) as i128, start_reg as i128),
    }
}

pub open spec fn sep() -> Seq<char> {
    seq![' ', ' ']
}

/// The indentation of an instruction, from that of the one before: one
/// level deeper after a `RewindAwait` (a loop opens), one level less at a
/// `NextAsync` (its loop closes).
pub open spec fn indent_after(prev: Option<Insn>, cur: Insn, n: nat) -> nat {
    let n1 = if prev is Some && prev->0 is RewindAwait { n + 1 } else { n };
    if cur is NextAsync {
        if n1 > 0 { (n1 - 1) as nat } else { 0 }
    } else {
        n1
    }
}

/// The indentation of instruction `k`.
pub open spec fn indent_of(insns: Seq<Insn>, k: int) -> nat
    decreases k,
{
    if k <= 0 {
        indent_after(None, insns[0], 0)
    } else {
        indent_after(Some(insns[k - 1]), insns[k], indent_of(insns, k - 1))
    }
}

/// The indentation level of `curr_insn`, given that of the instruction
/// before it.
pub fn get_indent_count(indent_count: usize, curr_insn: Insn, prev_insn: Option<Insn>) -> (r: usize)
    requires
        indent_count < usize::MAX,
    ensures
        r == indent_after(prev_insn, curr_insn, indent_count as nat),
{
    let n = match prev_insn {
        Some(Insn::RewindAwait { .. }) => indent_count + 1,
        _ => indent_count,
    };
    match curr_insn {
        Insn::NextAsync { .. } => if n > 0 { n - 1 } else { 0 },
        _ => n,
    }
}

/// The fourth and fifth operands: for `Cmp`, p5 holds its flags (1 for
/// jump-if-NULL, 2 for NULL-equals); 0 elsewhere.
pub open spec fn extra_operands(i: Insn) -> (int, int) {
    match i {
        Insn::Cmp { jump_if_null, null_eq, .. } => (0, flag(jump_if_null) + 2 * flag(null_eq)),
        _ => (0, 0),
    }
}

fn extra_operands_exec(i: Insn) -> (r: (i128, i128))
    ensures
        (r.0 as int, r.1 as int) == extra_operands(i),
        fits_listing(r.0 as int) && fits_listing(r.1 as int),
{
    match i {
        Insn::Cmp { jump_if_null, null_eq, .. } => (0, (flag_exec(jump_if_null) + 2 * flag_exec(null_eq)) as i128),
        _ => (0, 0),
    }
}

/// The comment of the instruction at `addr`, empty if it has none.
pub open spec fn comment_at(comments: Seq<Option<String>>, addr: int) -> Seq<char> {
    if 0 <= addr < comments.len() && comments[addr] is Some {
        comments[addr]->0@
    } else {
        Seq::empty()
    }
}

/// The two header lines of the listing.
pub open spec fn header() -> Seq<char> {
    "addr  opcode  p1  p2  p3  p4  p5  comment\n----  ------  --  --  --  --  --  -------\n"@
}

/// One line of the listing: address, opcode indented by loop depth, the
/// operands p1 to p5 and the comment, two spaces apart.
#[verifier::opaque]
pub open spec fn insn_line(addr: int, i: Insn, indent: nat, comment: Seq<char>) -> Seq<char> {
    let (p1, p2, p3) = operands(i);
    let (p4, p5) = extra_operands(i);
    int_text(addr) + sep() + Seq::new(2 * indent, |k: int| ' ') + opcode_name(i) + fields(
        seq![p1, p2, p3, p4, p5],
        comment,
    )
}

/// Each operand after two spaces, then the comment and the line end.
pub open spec fn fields(ps: Seq<int>, comment: Seq<char>) -> Seq<char>
    decreases ps.len(),
{
    if ps.len() == 0 {
        sep() + comment + seq!['\n']
    } else {
        sep() + int_text(ps[0]) + fields(ps.drop_first(), comment)
    }
}

/// Appends each operand after two spaces, then the comment and a newline.
fn push_fields(out: &mut Vec<char>, ps: &Vec<i128>, comment: &Vec<char>)
    requires
        forall|k: int| 0 <= k < ps@.len() ==> fits_listing(#[trigger] ps@[k] as int),
    ensures
        final(out)@ == old(out)@ + fields(ps@.map_values(|p: i128| p as int), comment@),
{
    let ghost all = ps@.map_values(|p: i128| p as int);
    assert(all.subrange(0, all.len() as int) =~= all);
    let mut k: usize = 0;
    while k < ps.len()
        invariant
            k <= ps@.len(),
            all == ps@.map_values(|p: i128| p as int),
            forall|j: int| 0 <= j < ps@.len() ==> fits_listing(#[trigger] ps@[j] as int),
            old(out)@ + fields(all, comment@) == out@ + fields(all.subrange(k as int, all.len() as int), comment@),
        decreases ps.len() - k,
    {
        let ghost rest = all.subrange(k as int, all.len() as int);
        let ghost before = out@;
        out.push(' ');
        out.push(' ');
        push_int(out, ps[k]);
        assert(rest.drop_first() =~= all.subrange(k + 1, all.len() as int));
        assert(out@ == before + sep() + int_text(rest[0]));
        k = k + 1;
    }
    let ghost before = out@;
    out.push(' ');
    out.push(' ');
    append_chars(out, comment);
    out.push('\n');
    assert(all.subrange(ps@.len() as int, all.len() as int) =~= Seq::<int>::empty());
    assert(out@ =~= before + fields(Seq::<int>::empty(), comment@));
}

/// The header and the lines of the first `n` instructions.
pub open spec fn listing_upto(insns: Seq<Insn>, comments: Seq<Option<String>>, n: int) -> Seq<char>
    decreases n,
{
    if n <= 0 {
        header()
    } else {
        listing_upto(insns, comments, n - 1) + insn_line(
            n - 1,
            insns[n - 1],
            indent_of(insns, n - 1),
            comment_at(comments, n - 1),
        )
    }
}

/// Appends the decimal rendering of `x`.
fn push_int(out: &mut Vec<char>, x: i128)
    requires
        fits_listing(x as int),
    ensures
        final(out)@ == old(out)@ + int_text(x as int),
{
    if x < 0 {
        out.push('-');
        append_chars(out, &nat_digits((-x) as u64));
        assert(out@ =~= old(out)@ + int_text(x as int));
    } else {
        append_chars(out, &nat_digits(x as u64));
    }
}

/// Appends the listing line of one instruction.
fn print_insn(out: &mut Vec<char>, addr: usize, insn: Insn, indent: usize, comment: &Vec<char>)
    ensures
        final(out)@ == old(out)@ + insn_line(addr as int, insn, indent as nat, comment@),
{
    proof {
        reveal(insn_line);
    }
    let (p1, p2, p3) = operands_exec(insn);
    let ghost before = out@;
    push_int(out, addr as i128);
    out.push(' ');
    out.push(' ');
    let mut k: usize = 0;
    while k < indent
        invariant
            k <= indent,
            out@ == before + int_text(addr as int) + sep() + Seq::new((2 * k) as nat, |j: int| ' '),
        decreases indent - k,
    {
        out.push(' ');
        out.push(' ');
        k = k + 1;
        assert(out@ =~= before + int_text(addr as int) + sep() + Seq::new((2 * k) as nat, |j: int| ' '));
    }
    append_chars(out, &chars_of(opcode_str(insn)));
    let (p4, p5) = extra_operands_exec(insn);
    let mut ps: Vec<i128> = Vec::new();
    ps.push(p1);
    ps.push(p2);
    ps.push(p3);
    ps.push(p4);
    ps.push(p5);
    assert(ps@.map_values(|p: i128| p as int) =~= seq![p1 as int, p2 as int, p3 as int, p4 as int, p5 as int]);
    let ghost mid = out@;
    push_fields(out, &ps, comment);
    assert(out@ =~= before + insn_line(addr as int, insn, indent as nat, comment@));
}

impl Program {
    /// The program as a table under a header and a separator line: one
    /// line per instruction with its address, its opcode indented by loop
    /// depth, its operands p1 to p5 and its comment.
    pub fn explain(&self) -> (r: String)
        ensures
            r@ == listing_upto(self.insns@, self.comments@, self.insns@.len() as int),
    {
        let mut out = chars_of("addr  opcode  p1  p2  p3  p4  p5  comment\n----  ------  --  --  --  --  --  -------\n");
        let mut indent: usize = 0;
        let mut prev: Option<Insn> = None;
        let mut addr: usize = 0;
        while addr < self.insns.len()
            invariant
                addr <= self.insns@.len(),
                indent <= addr,
                out@ == listing_upto(self.insns@, self.comments@, addr as int),
                addr == 0 ==> prev is None && indent == 0,
                addr > 0 ==> prev == Some(self.insns@[addr - 1]) && indent == indent_of(self.insns@, addr - 1),
            decreases self.insns.len() - addr,
        {
            let insn = self.insns[addr];
            indent = get_indent_count(indent, insn, prev);
            assert(indent == indent_of(self.insns@, addr as int));
            let comment: Vec<char> = if addr < self.comments.len() {
                match &self.comments[addr] {
                    Some(text) => chars_of(text.as_str()),
                    None => Vec::new(),
                }
            } else {
                Vec::new()
            };
            assert(comment@ == comment_at(self.comments@, addr as int));
            print_insn(&mut out, addr, insn, indent, &comment);
            prev = Some(insn);
            addr = addr + 1;
        }
        chars_to_string(&out)
    }
}

/// SQLite's extended code for a PRIMARY KEY constraint failure.
pub const SQLITE_CONSTRAINT_PRIMARYKEY: usize = 1555;

/// The text of description `d`, empty when there is none.
pub open spec fn description_at(ds: Seq<String>, d: int) -> Seq<char> {
    if 0 <= d < ds.len() { ds[d]@ } else { Seq::empty() }
}

/// The message of a failed `Halt`.
pub open spec fn constraint_text(code: usize, description: Seq<char>) -> Seq<char> {
    if code == SQLITE_CONSTRAINT_PRIMARYKEY {
        "UNIQUE constraint failed: "@ + description + " (19)"@
    } else {
        "undocumented halt error code "@ + description
    }
}

impl Program {
    /// The message for `VmError::Constraint { code, description }`: a
    /// UNIQUE failure naming the description for a primary-key code, else
    /// the description of an undocumented code.
    pub fn constraint_message(&self, code: usize, description: usize) -> (r: String)
        ensures
            r@ == constraint_text(code, description_at(self.descriptions@, description as int)),
    {
        let d: Vec<char> = if description < self.descriptions.len() {
            chars_of(self.descriptions[description].as_str())
        } else {
            Vec::new()
        };
        assert(d@ == description_at(self.descriptions@, description as int));
        let mut out: Vec<char>;
        if code == SQLITE_CONSTRAINT_PRIMARYKEY {
            out = chars_of("UNIQUE constraint failed: ");
            append_chars(&mut out, &d);
            append_chars(&mut out, &chars_of(" (19)"));
        } else {
            out = chars_of("undocumented halt error code ");
            append_chars(&mut out, &d);
        }
        chars_to_string(&out)
    }
}

} // verus!
