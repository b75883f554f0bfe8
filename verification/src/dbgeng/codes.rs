//! The engine's own numbers: statuses, flags and result codes of `dbgeng.h` and `winerror.h`.
use vstd::prelude::*;

verus! {

pub const DEBUG_ANY_ID: u32 = 0xffff_ffff;

pub const DEBUG_ATTACH_KERNEL_CONNECTION: u32 = 0;

pub const DEBUG_ATTACH_LOCAL_KERNEL: u32 = 1;

pub const DEBUG_BREAKPOINT_CODE: u32 = 0;

pub const DEBUG_BREAKPOINT_DATA: u32 = 1;

pub const DEBUG_BREAKPOINT_DEFERRED: u32 = 2;

pub const DEBUG_BREAKPOINT_ENABLED: u32 = 4;

pub const DEBUG_BREAKPOINT_ONE_SHOT: u32 = 16;

pub const DEBUG_BREAK_READ: u32 = 1;

pub const DEBUG_BREAK_WRITE: u32 = 2;

pub const DEBUG_BREAK_EXECUTE: u32 = 4;

pub const DEBUG_BREAK_IO: u32 = 8;

pub const DEBUG_CLASS_KERNEL: u32 = 1;

pub const DEBUG_KERNEL_SMALL_DUMP: u32 = 1024;

pub const DEBUG_MODULE_UNLOADED: u32 = 1;

pub const DEBUG_MODULE_USER_MODE: u32 = 2;

pub const DEBUG_OUTCTL_THIS_CLIENT: u32 = 0;

pub const DEBUG_OUTPUT_NORMAL: u32 = 1;

pub const DEBUG_REGISTER_SUB_REGISTER: u32 = 1;

pub const DEBUG_STATUS_GO: u32 = 1;

pub const DEBUG_STATUS_GO_HANDLED: u32 = 2;

pub const DEBUG_STATUS_GO_NOT_HANDLED: u32 = 3;

pub const DEBUG_STATUS_STEP_OVER: u32 = 4;

pub const DEBUG_STATUS_STEP_INTO: u32 = 5;

pub const DEBUG_STATUS_BREAK: u32 = 6;

pub const DEBUG_STATUS_NO_DEBUGGEE: u32 = 7;

pub const DEBUG_STATUS_STEP_BRANCH: u32 = 8;

pub const DEBUG_STATUS_REVERSE_GO: u32 = 11;

pub const DEBUG_STATUS_REVERSE_STEP_BRANCH: u32 = 12;

pub const DEBUG_STATUS_REVERSE_STEP_OVER: u32 = 13;

pub const DEBUG_STATUS_REVERSE_STEP_INTO: u32 = 14;

pub const DEBUG_STATUS_MASK: u32 = 31;

pub const DEBUG_SYMTYPE_NONE: u32 = 0;

pub const DEBUG_SYMTYPE_COFF: u32 = 1;

pub const DEBUG_SYMTYPE_CODEVIEW: u32 = 2;

pub const DEBUG_SYMTYPE_PDB: u32 = 3;

pub const DEBUG_SYMTYPE_EXPORT: u32 = 4;

pub const DEBUG_SYMTYPE_DEFERRED: u32 = 5;

pub const DEBUG_SYMTYPE_SYM: u32 = 6;

pub const DEBUG_SYMTYPE_DIA: u32 = 7;

pub const DEBUG_VALUE_INT8: u32 = 1;

pub const DEBUG_VALUE_INT16: u32 = 2;

pub const DEBUG_VALUE_INT32: u32 = 3;

pub const DEBUG_VALUE_INT64: u32 = 4;

pub const DEBUG_VALUE_FLOAT32: u32 = 5;

pub const DEBUG_VALUE_FLOAT64: u32 = 6;

pub const DEBUG_VALUE_FLOAT80: u32 = 7;

pub const DEBUG_VALUE_FLOAT82: u32 = 8;

pub const DEBUG_VALUE_FLOAT128: u32 = 9;

pub const DEBUG_VALUE_VECTOR64: u32 = 10;

pub const DEBUG_VALUE_VECTOR128: u32 = 11;

/// The engine's "there is no address here", which is not the same as an address of zero.
pub const DEBUG_INVALID_OFFSET: u64 = 0xffff_ffff_ffff_ffff;

/// Prints marked-up text where the client takes it.
pub const DEBUG_OUTCTL_DML: u32 = 0x20;

/// `EndSession`: disconnect without resuming.
pub const DEBUG_END_PASSIVE: u32 = 0;

/// `EndSession`: resume the target, then disconnect.
pub const DEBUG_END_ACTIVE_DETACH: u32 = 2;

/// `CreateProcess`: debug only the launched process, not its children.
pub const DEBUG_ONLY_THIS_PROCESS: u32 = 2;

/// `CreateProcess`: give the launched target a console of its own, with no window.
pub const CREATE_NO_WINDOW: u32 = 0x0800_0000;

/// How long a freshly launched or attached target has to reach its initial break, in
/// milliseconds.
pub const LIVE_WAIT_MS: u32 = 30_000;

/// How long a live kernel that has connected has to break in, in milliseconds.
pub const KERNEL_ATTACH_WAIT_MS: u32 = 60_000;

/// `WaitForEvent` without a bound.
pub const WAIT_INFINITE: u32 = 0xffff_ffff;

pub const IMAGE_FILE_MACHINE_AMD64: u32 = 0x8664;

pub const IMAGE_FILE_MACHINE_ARM64: u32 = 0xaa64;

pub const S_OK: i32 = 0;

pub const S_FALSE: i32 = 1;

pub const E_FAIL: i32 = -0x7fff_bffb;

pub const E_INVALIDARG: i32 = -0x7ff8_ffa9;

pub const E_NOINTERFACE: i32 = -0x7fff_bffe;

/// Whether a result code is a failure: its sign bit is set.
pub open spec fn is_failure(code: i32) -> bool {
    code < 0
}

/// A result code is a failure exactly where its sign says so: success with nothing to report is
/// none.
pub proof fn the_sign_says_failure(code: i32)
    ensures
        is_failure(code) <==> code < 0,
        !is_failure(S_OK),
        !is_failure(S_FALSE),
        is_failure(E_FAIL) && is_failure(E_INVALIDARG) && is_failure(E_NOINTERFACE),
{
}

/// The numbers are those of the engine's and the system's headers.
pub proof fn the_numbers_are_the_headers()
    ensures
        DEBUG_ANY_ID == 0xffff_ffff && DEBUG_INVALID_OFFSET == 0xffff_ffff_ffff_ffff,
        DEBUG_ATTACH_KERNEL_CONNECTION == 0 && DEBUG_ATTACH_LOCAL_KERNEL == 1,
        DEBUG_BREAKPOINT_CODE == 0 && DEBUG_BREAKPOINT_DATA == 1,
        DEBUG_BREAKPOINT_DEFERRED == 2 && DEBUG_BREAKPOINT_ENABLED == 4
            && DEBUG_BREAKPOINT_ONE_SHOT == 16,
        DEBUG_BREAK_READ == 1 && DEBUG_BREAK_WRITE == 2 && DEBUG_BREAK_EXECUTE == 4
            && DEBUG_BREAK_IO == 8,
        DEBUG_CLASS_KERNEL == 1 && DEBUG_KERNEL_SMALL_DUMP == 1024,
        DEBUG_MODULE_UNLOADED == 1 && DEBUG_MODULE_USER_MODE == 2,
        DEBUG_OUTCTL_THIS_CLIENT == 0 && DEBUG_OUTCTL_DML == 0x20 && DEBUG_OUTPUT_NORMAL == 1,
        DEBUG_REGISTER_SUB_REGISTER == 1,
        DEBUG_STATUS_GO == 1 && DEBUG_STATUS_GO_HANDLED == 2 && DEBUG_STATUS_GO_NOT_HANDLED == 3,
        DEBUG_STATUS_STEP_OVER == 4 && DEBUG_STATUS_STEP_INTO == 5 && DEBUG_STATUS_STEP_BRANCH == 8,
        DEBUG_STATUS_BREAK == 6 && DEBUG_STATUS_NO_DEBUGGEE == 7 && DEBUG_STATUS_MASK == 31,
        DEBUG_STATUS_REVERSE_GO == 11 && DEBUG_STATUS_REVERSE_STEP_BRANCH == 12
            && DEBUG_STATUS_REVERSE_STEP_OVER == 13 && DEBUG_STATUS_REVERSE_STEP_INTO == 14,
        DEBUG_SYMTYPE_NONE == 0 && DEBUG_SYMTYPE_COFF == 1 && DEBUG_SYMTYPE_CODEVIEW == 2
            && DEBUG_SYMTYPE_PDB == 3 && DEBUG_SYMTYPE_EXPORT == 4 && DEBUG_SYMTYPE_DEFERRED == 5
            && DEBUG_SYMTYPE_SYM == 6 && DEBUG_SYMTYPE_DIA == 7,
        DEBUG_VALUE_INT8 == 1 && DEBUG_VALUE_INT16 == 2 && DEBUG_VALUE_INT32 == 3
            && DEBUG_VALUE_INT64 == 4 && DEBUG_VALUE_FLOAT32 == 5 && DEBUG_VALUE_FLOAT64 == 6
            && DEBUG_VALUE_FLOAT80 == 7 && DEBUG_VALUE_FLOAT82 == 8 && DEBUG_VALUE_FLOAT128 == 9
            && DEBUG_VALUE_VECTOR64 == 10 && DEBUG_VALUE_VECTOR128 == 11,
        DEBUG_END_PASSIVE == 0 && DEBUG_END_ACTIVE_DETACH == 2,
        DEBUG_ONLY_THIS_PROCESS == 2 && CREATE_NO_WINDOW == 0x0800_0000,
        WAIT_INFINITE == 0xffff_ffff && LIVE_WAIT_MS == 30_000 && KERNEL_ATTACH_WAIT_MS == 60_000,
        IMAGE_FILE_MACHINE_AMD64 == 0x8664 && IMAGE_FILE_MACHINE_ARM64 == 0xaa64,
        S_OK == 0 && S_FALSE == 1,
        E_FAIL + 0x1_0000_0000 == 0x8000_4005,
        E_INVALIDARG + 0x1_0000_0000 == 0x8007_0057,
        E_NOINTERFACE + 0x1_0000_0000 == 0x8000_4002,
{
}

} // verus!
