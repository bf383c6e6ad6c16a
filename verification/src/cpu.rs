//! Interpreter engine: memory, registers, index register, call stack,
//! timers, program counter and run-state, with instruction fetch, decode
//! and execute over the framebuffer and keyboard snapshot.
//!
//! All register arithmetic wraps modulo 256. Memory accesses are bounds
//! checked: a fetch or operand address outside memory halts the engine and
//! surfaces a structured fault instead of panicking. Unrecognized opcode
//! patterns inside a known family are deliberate no-ops, so programs that
//! exercise undefined opcode space keep running.

use vstd::prelude::*;

use crate::display::{blank_screen, draw_cols, Display};
use crate::keyboard::{key_pressed, Keyboard};

verus! {

/// Bytes of addressable memory.
pub const MEMORY_SIZE: usize = 4096;
/// First address of the program area; `load_program` copies bytes here.
pub const PROGRAM_START: u16 = 0x200;
/// Deepest chain of pending subroutine calls; one more call faults.
pub const STACK_LIMIT: usize = 16;

/// Interpreter lifecycle. A fresh engine has not started; loading a program
/// makes it run; the key-wait opcode parks it on a target register until the
/// host delivers a press; a fatal fault halts it until the next load.
#[derive(Clone, Copy, Debug, PartialEq, Eq, Structural)]
pub enum RunState {
    NotStarted,
    Running,
    WaitingForKeyPress(u8),
    Halted,
}

/// Fatal faults of a running program. Either one halts the engine; an empty
/// return and unrecognized opcode patterns are deliberate no-ops instead.
#[derive(Clone, Copy, Debug, PartialEq, Eq, Structural)]
pub enum CpuError {
    OutOfBoundsMemoryAccess,
    StackOverflow,
}

/// Mathematical image of the whole engine state.
#[verifier::ext_equal]
pub ghost struct CpuView {
    pub memory: Seq<u8>,
    pub registers: Seq<u8>,
    pub address: u16,
    pub delay_timer: u8,
    pub sound_timer: u8,
    pub pc: u16,
    pub stack: Seq<u16>,
    pub state: RunState,
}

/// An engine state is valid when memory, register file and stack have their
/// fixed sizes and a key-wait target names a real register.
pub open spec fn cpu_wf(c: CpuView) -> bool {
    &&& c.memory.len() == 4096
    &&& c.registers.len() == 16
    &&& c.stack.len() <= 16
    &&& (c.state matches RunState::WaitingForKeyPress(t) ==> t < 16)
}

/// The fixed font table: sixteen glyphs of five bytes each, one glyph per
/// hexadecimal digit, resident at addresses 0x000..0x050.
pub open spec fn font_table() -> Seq<u8> {
    seq![
        0xF0u8, 0x90, 0x90, 0x90, 0xF0, // 0
        0x20, 0x60, 0x20, 0x20, 0x70, // 1
        0xF0, 0x10, 0xF0, 0x80, 0xF0, // 2
        0xF0, 0x10, 0xF0, 0x10, 0xF0, // 3
        0x90, 0x90, 0xF0, 0x10, 0x10, // 4
        0xF0, 0x80, 0xF0, 0x10, 0xF0, // 5
        0xF0, 0x80, 0xF0, 0x90, 0xF0, // 6
        0xF0, 0x10, 0x20, 0x40, 0x40, // 7
        0xF0, 0x90, 0xF0, 0x90, 0xF0, // 8
        0xF0, 0x90, 0xF0, 0x10, 0xF0, // 9
        0xF0, 0x90, 0xF0, 0x90, 0x90, // A
        0xE0, 0x90, 0xE0, 0x90, 0xE0, // B
        0xF0, 0x80, 0x80, 0x80, 0xF0, // C
        0xE0, 0x90, 0x90, 0x90, 0xE0, // D
        0xF0, 0x80, 0xF0, 0x80, 0xF0, // E
        0xF0, 0x80, 0xF0, 0x80, 0x80, // F
    ]
}

/// Memory of a fresh engine: the font table followed by zeroes.
pub open spec fn initial_memory() -> Seq<u8> {
    Seq::new(4096, |i: int| if i < 80 { font_table()[i] } else { 0u8 })
}

/// A fresh engine: zeroed registers and timers, index register 0, program
/// counter at the program area, empty stack, font loaded, not yet started.
pub open spec fn initial_cpu() -> CpuView {
    CpuView {
        memory: initial_memory(),
        registers: Seq::new(16, |i: int| 0u8),
        address: 0,
        delay_timer: 0,
        sound_timer: 0,
        pc: 0x200,
        stack: Seq::empty(),
        state: RunState::NotStarted,
    }
}

/// One timer tick: each counter drops by exactly 1 while above 0 and floors
/// at 0; nothing else moves.
pub open spec fn ticked(c: CpuView) -> CpuView {
    CpuView {
        delay_timer: if c.delay_timer > 0 { (c.delay_timer - 1) as u8 } else { 0u8 },
        sound_timer: if c.sound_timer > 0 { (c.sound_timer - 1) as u8 } else { 0u8 },
        ..c
    }
}

/// Resolution of a key-wait: while parked, the delivered key lands in the
/// target register and the engine runs again; in any other state the
/// delivery leaves the engine alone.
pub open spec fn after_key(c: CpuView, key: u8) -> CpuView {
    match c.state {
        RunState::WaitingForKeyPress(t) => CpuView {
            registers: c.registers.update(t as int, key),
            state: RunState::Running,
            ..c
        },
        _ => c,
    }
}

/// How many program bytes a load copies: all of them, silently truncated to
/// the space above the program start.
pub open spec fn copy_len(prog: Seq<u8>) -> int {
    if prog.len() <= 3584 { prog.len() as int } else { 3584 }
}

/// Memory after a load: the program prefix over the program area, every
/// other byte as it was.
pub open spec fn loaded_memory(mem: Seq<u8>, prog: Seq<u8>) -> Seq<u8> {
    Seq::new(4096, |i: int|
        if 0x200 <= i < 0x200 + copy_len(prog) { prog[i - 0x200] } else { mem[i] })
}

/// A load rewrites the program area, rewinds the program counter and starts
/// the engine running; registers, stack and timers keep their old values.
pub open spec fn after_load(c: CpuView, prog: Seq<u8>) -> CpuView {
    CpuView {
        memory: loaded_memory(c.memory, prog),
        pc: 0x200,
        state: RunState::Running,
        ..c
    }
}

// ---------------------------------------------------------------------------
// Instruction semantics.
//
// `exec_op` is the authoritative meaning of one decoded opcode, applied to a
// state whose program counter still points at the opcode; it advances the
// counter by 2 first, so jumps and calls that set the counter are not
// advanced twice. `cycle_result` wraps it with the run-state guard and the
// fetch bounds check. `rb` stands for the byte the random-draw opcode
// consumed; every other opcode ignores it.
// ---------------------------------------------------------------------------

/// Top nibble of an opcode, the primary dispatch key.
pub open spec fn op_top(op: u16) -> u16 {
    op / 0x1000
}

/// Register selector `x`, bits 8..12.
pub open spec fn op_x(op: u16) -> int {
    ((op / 0x100) % 16) as int
}

/// Register selector `y`, bits 4..8.
pub open spec fn op_y(op: u16) -> int {
    ((op / 16) % 16) as int
}

/// Low nibble `n`.
pub open spec fn op_n(op: u16) -> u16 {
    op % 16
}

/// Low byte `nn`.
pub open spec fn op_nn(op: u16) -> u8 {
    (op % 0x100) as u8
}

/// Low twelve bits `nnn`, an address operand.
pub open spec fn op_nnn(op: u16) -> u16 {
    op % 0x1000
}

/// The big-endian opcode at `pc`.
pub open spec fn spec_fetch(mem: Seq<u8>, pc: int) -> u16 {
    (mem[pc] * 256 + mem[pc + 1]) as u16
}

/// Addition modulo 256, the wraparound of every register addition.
pub open spec fn wrap_add(a: u8, b: u8) -> u8 {
    if a + b > 255 { (a + b - 256) as u8 } else { (a + b) as u8 }
}

/// Subtraction modulo 256.
pub open spec fn wrap_sub(a: u8, b: u8) -> u8 {
    if a - b < 0 { (a - b + 256) as u8 } else { (a - b) as u8 }
}

/// Addition modulo 2^16, the wraparound of the index register.
pub open spec fn wrap_add16(a: u16, b: u16) -> u16 {
    if a + b > 0xFFFF { (a + b - 0x10000) as u16 } else { (a + b) as u16 }
}

/// The halted image of a faulted state.
pub open spec fn halted(c: CpuView) -> CpuView {
    CpuView { state: RunState::Halted, ..c }
}

/// A conditional skip: one more instruction width when `cond` holds.
pub open spec fn skip_if(c: CpuView, cond: bool) -> CpuView {
    if cond { CpuView { pc: (c.pc + 2) as u16, ..c } } else { c }
}

/// Result value of a register-register ALU opcode `8xy_`, from the operand
/// values read before any write.
pub open spec fn alu_result(vx: u8, vy: u8, sub: u16) -> u8 {
    if sub == 0 { vy }
    else if sub == 1 { vx | vy }
    else if sub == 2 { vx & vy }
    else if sub == 3 { vx ^ vy }
    else if sub == 4 { wrap_add(vx, vy) }
    else if sub == 5 { wrap_sub(vx, vy) }
    else if sub == 6 { (vx / 2) as u8 }
    else if sub == 7 { wrap_sub(vy, vx) }
    else { wrap_add(vx, vx) }
}

/// Flag side-output of an ALU opcode: carry out of an addition, not-borrow
/// of a subtraction (`1` iff the minuend was at least the subtrahend), or
/// the bit shifted out. Assignment and the bitwise opcodes leave the flag
/// alone. The flag is written after the result, so when `x` selects the
/// flag register itself the flag value prevails.
pub open spec fn alu_flag(vx: u8, vy: u8, sub: u16) -> Option<u8> {
    if sub == 4 { Some(if vx + vy > 255 { 1u8 } else { 0u8 }) }
    else if sub == 5 { Some(if vx >= vy { 1u8 } else { 0u8 }) }
    else if sub == 6 { Some((vx % 2) as u8) }
    else if sub == 7 { Some(if vy >= vx { 1u8 } else { 0u8 }) }
    else if sub == 0xE { Some((vx / 128) as u8) }
    else { None }
}

/// One `8xy_` opcode on an already-advanced state. An unrecognized low
/// nibble is a no-op.
pub open spec fn exec_alu(c: CpuView, op: u16) -> CpuView {
    let x = op_x(op);
    let sub = op_n(op);
    let vx = c.registers[x];
    let vy = c.registers[op_y(op)];
    if sub <= 7 || sub == 0xE {
        let regs1 = c.registers.update(x, alu_result(vx, vy, sub));
        let regs2 = match alu_flag(vx, vy, sub) {
            Some(f) => regs1.update(15, f),
            None => regs1,
        };
        CpuView { registers: regs2, ..c }
    } else {
        c
    }
}

/// Effect of sprite rows `row..n` read from `mem[base + row]..`, each XORed
/// at origin `(xr, yr + row)`; the second component reports any
/// lit-to-dark transition.
pub open spec fn draw_rows(screen: Seq<u8>, mem: Seq<u8>, base: int, xr: int, yr: int, row: int, n: int) -> (Seq<u8>, bool)
    decreases n - row,
{
    if row >= n {
        (screen, false)
    } else {
        let (s1, c1) = draw_cols(screen, mem[base + row], xr, yr + row, 0);
        let (s2, c2) = draw_rows(s1, mem, base, xr, yr, row + 1, n);
        (s2, c1 || c2)
    }
}

/// The draw opcode `Dxyn` on an already-advanced state: the sprite origin
/// is wrapped into the grid, each lit bit XORs its cell unless its
/// unwrapped position is clipped, and the flag register reports collision.
/// A sprite whose bytes would be read past memory halts the engine.
pub open spec fn exec_draw(c: CpuView, screen: Seq<u8>, op: u16) -> (CpuView, Seq<u8>, Option<CpuError>) {
    let n = op_n(op) as int;
    let xr = c.registers[op_x(op)] % 64;
    let yr = c.registers[op_y(op)] % 32;
    if n > 0 && c.address + n > 4096 {
        (halted(c), screen, Some(CpuError::OutOfBoundsMemoryAccess))
    } else {
        let (s2, coll) = draw_rows(screen, c.memory, c.address as int, xr as int, yr as int, 0, n);
        (
            CpuView { registers: c.registers.update(15, if coll { 1u8 } else { 0u8 }), ..c },
            s2,
            None,
        )
    }
}

/// Memory after the binary-coded-decimal opcode: the hundreds, tens and
/// ones digits of `v` at `base`, `base + 1`, `base + 2`.
pub open spec fn bcd_memory(mem: Seq<u8>, base: int, v: u8) -> Seq<u8> {
    mem.update(base, (v / 100) as u8)
       .update(base + 1, ((v % 100) / 10) as u8)
       .update(base + 2, (v % 10) as u8)
}

/// Memory after storing registers `0..=k` at `base`.
pub open spec fn stored_regs(mem: Seq<u8>, regs: Seq<u8>, base: int, k: int) -> Seq<u8>
    decreases k + 1,
{
    if k < 0 {
        mem
    } else {
        stored_regs(mem, regs, base, k - 1).update(base + k, regs[k])
    }
}

/// Register file after loading registers `0..=k` from `base`.
pub open spec fn loaded_regs(regs: Seq<u8>, mem: Seq<u8>, base: int, k: int) -> Seq<u8>
    decreases k + 1,
{
    if k < 0 {
        regs
    } else {
        loaded_regs(regs, mem, base, k - 1).update(k, mem[base + k])
    }
}

/// One `Fx__` opcode on an already-advanced state. An unrecognized low
/// byte is a no-op; a memory operand running past memory halts the engine.
pub open spec fn exec_fx(c: CpuView, op: u16) -> (CpuView, Option<CpuError>) {
    let x = op_x(op);
    let vx = c.registers[x];
    let nn = op % 0x100;
    if nn == 0x07 {
        (CpuView { registers: c.registers.update(x, c.delay_timer), ..c }, None)
    } else if nn == 0x0A {
        (CpuView { state: RunState::WaitingForKeyPress(x as u8), ..c }, None)
    } else if nn == 0x15 {
        (CpuView { delay_timer: vx, ..c }, None)
    } else if nn == 0x18 {
        (CpuView { sound_timer: vx, ..c }, None)
    } else if nn == 0x1E {
        (CpuView { address: wrap_add16(c.address, vx as u16), ..c }, None)
    } else if nn == 0x29 {
        (CpuView { address: (vx * 5) as u16, ..c }, None)
    } else if nn == 0x33 {
        if c.address + 3 > 4096 {
            (halted(c), Some(CpuError::OutOfBoundsMemoryAccess))
        } else {
            (CpuView { memory: bcd_memory(c.memory, c.address as int, vx), ..c }, None)
        }
    } else if nn == 0x55 {
        if c.address + x + 1 > 4096 {
            (halted(c), Some(CpuError::OutOfBoundsMemoryAccess))
        } else {
            (CpuView { memory: stored_regs(c.memory, c.registers, c.address as int, x), ..c }, None)
        }
    } else if nn == 0x65 {
        if c.address + x + 1 > 4096 {
            (halted(c), Some(CpuError::OutOfBoundsMemoryAccess))
        } else {
            (CpuView { registers: loaded_regs(c.registers, c.memory, c.address as int, x), ..c }, None)
        }
    } else {
        (c, None)
    }
}

/// The meaning of one decoded opcode `op` against keyboard snapshot `keys`,
/// with `rb` the byte the random opcode consumed. The program counter is
/// advanced by one instruction width before dispatch.
pub open spec fn exec_op(c: CpuView, screen: Seq<u8>, keys: Seq<bool>, op: u16, rb: u8) -> (CpuView, Seq<u8>, Option<CpuError>) {
    let x = op_x(op);
    let vx = c.registers[x];
    let vy = c.registers[op_y(op)];
    let nn = op_nn(op);
    let c2 = CpuView { pc: (c.pc + 2) as u16, ..c };
    let top = op_top(op);
    if top == 0 {
        if op == 0x00E0 {
            (c2, blank_screen(), None)
        } else if op == 0x00EE {
            if c2.stack.len() == 0 {
                (c2, screen, None)
            } else {
                (CpuView { pc: c2.stack.last(), stack: c2.stack.drop_last(), ..c2 }, screen, None)
            }
        } else {
            (c2, screen, None)
        }
    } else if top == 1 {
        (CpuView { pc: op_nnn(op), ..c2 }, screen, None)
    } else if top == 2 {
        if c2.stack.len() >= 16 {
            (halted(c2), screen, Some(CpuError::StackOverflow))
        } else {
            (CpuView { stack: c2.stack.push(c2.pc), pc: op_nnn(op), ..c2 }, screen, None)
        }
    } else if top == 3 {
        (skip_if(c2, vx == nn), screen, None)
    } else if top == 4 {
        (skip_if(c2, vx != nn), screen, None)
    } else if top == 5 {
        (if op_n(op) == 0 { skip_if(c2, vx == vy) } else { c2 }, screen, None)
    } else if top == 6 {
        (CpuView { registers: c2.registers.update(x, nn), ..c2 }, screen, None)
    } else if top == 7 {
        (CpuView { registers: c2.registers.update(x, wrap_add(vx, nn)), ..c2 }, screen, None)
    } else if top == 8 {
        (exec_alu(c2, op), screen, None)
    } else if top == 9 {
        (if op_n(op) == 0 { skip_if(c2, vx != vy) } else { c2 }, screen, None)
    } else if top == 0xA {
        (CpuView { address: op_nnn(op), ..c2 }, screen, None)
    } else if top == 0xB {
        (CpuView { address: (op_nnn(op) + c2.registers[0]) as u16, ..c2 }, screen, None)
    } else if top == 0xC {
        (CpuView { registers: c2.registers.update(x, rb & nn), ..c2 }, screen, None)
    } else if top == 0xD {
        exec_draw(c2, screen, op)
    } else if top == 0xE {
        if op % 0x100 == 0x9E {
            (skip_if(c2, key_pressed(keys, vx)), screen, None)
        } else if op % 0x100 == 0xA1 {
            (skip_if(c2, !key_pressed(keys, vx)), screen, None)
        } else {
            (c2, screen, None)
        }
    } else {
        let (c3, e) = exec_fx(c2, op);
        (c3, screen, e)
    }
}

/// One instruction cycle: a no-op in any state but `Running`; a fetch past
/// memory halts the engine; otherwise the fetched opcode's own semantics.
pub open spec fn cycle_result(c: CpuView, screen: Seq<u8>, keys: Seq<bool>, rb: u8) -> (CpuView, Seq<u8>, Option<CpuError>) {
    if !(c.state is Running) {
        (c, screen, None)
    } else if c.pc + 1 >= 4096 {
        (halted(c), screen, Some(CpuError::OutOfBoundsMemoryAccess))
    } else {
        exec_op(c, screen, keys, spec_fetch(c.memory, c.pc as int), rb)
    }
}

/// State and screen after a batch of cycles, one per consumed random byte.
pub open spec fn run_result(c: CpuView, screen: Seq<u8>, keys: Seq<bool>, rbs: Seq<u8>) -> (CpuView, Seq<u8>)
    decreases rbs.len(),
{
    if rbs.len() == 0 {
        (c, screen)
    } else {
        let (c1, s1) = run_result(c, screen, keys, rbs.drop_last());
        let (c2, s2, e) = cycle_result(c1, s1, keys, rbs.last());
        (c2, s2)
    }
}

/// The `Result` a cycle reports for a given fault.
pub open spec fn as_result(e: Option<CpuError>) -> Result<(), CpuError> {
    match e {
        None => Ok(()),
        Some(er) => Err(er),
    }
}

/// What storing registers does, cell by cell: bytes `base..=base+k` hold
/// registers `0..=k`, every other byte keeps its value.
pub proof fn lemma_stored_regs_pointwise(mem: Seq<u8>, regs: Seq<u8>, base: int, k: int)
    requires
        0 <= base,
        base + k < mem.len(),
    ensures
        stored_regs(mem, regs, base, k).len() == mem.len(),
        forall|j: int| 0 <= j <= k ==> stored_regs(mem, regs, base, k)[base + j] == #[trigger] regs[j],
        forall|i: int| 0 <= i < mem.len() && !(base <= i <= base + k)
            ==> #[trigger] stored_regs(mem, regs, base, k)[i] == mem[i],
    decreases k + 1,
{
    if k >= 0 {
        lemma_stored_regs_pointwise(mem, regs, base, k - 1);
    }
}

/// What loading registers does, register by register: registers `0..=k`
/// hold bytes `base..=base+k`, every other register keeps its value.
pub proof fn lemma_loaded_regs_pointwise(regs: Seq<u8>, mem: Seq<u8>, base: int, k: int)
    requires
        0 <= base,
        k < regs.len(),
    ensures
        loaded_regs(regs, mem, base, k).len() == regs.len(),
        forall|j: int| 0 <= j <= k ==> #[trigger] loaded_regs(regs, mem, base, k)[j] == mem[base + j],
        forall|j: int| 0 <= j < regs.len() && !(0 <= j <= k)
            ==> #[trigger] loaded_regs(regs, mem, base, k)[j] == regs[j],
    decreases k + 1,
{
    if k >= 0 {
        lemma_loaded_regs_pointwise(regs, mem, base, k - 1);
    }
}

/// Law: the register-store opcode `Fx55` followed by the register-load
/// opcode `Fx65` with the same `x` and the same index register value
/// round-trips the register file exactly (the stored bytes are read back
/// into the same registers, and higher registers were never touched).
#[verifier::rlimit(100)]
pub proof fn lemma_store_load_round_trip(c: CpuView, screen: Seq<u8>, keys: Seq<bool>, x: u16, rb1: u8, rb2: u8)
    requires
        cpu_wf(c),
        x < 16,
        c.address + x + 1 <= 4096,
    ensures
        ({
            let store_op = (0xF055 + x * 0x100) as u16;
            let load_op = (0xF065 + x * 0x100) as u16;
            let c1 = exec_op(c, screen, keys, store_op, rb1).0;
            let c2 = exec_op(c1, screen, keys, load_op, rb2).0;
            c2.registers == c.registers
        }),
{
    let store_op = (0xF055 + x * 0x100) as u16;
    let load_op = (0xF065 + x * 0x100) as u16;
    assert(op_top(store_op) == 15 && store_op % 0x100 == 0x55 && op_x(store_op) == x);
    assert(op_top(load_op) == 15 && load_op % 0x100 == 0x65 && op_x(load_op) == x);
    let c1 = exec_op(c, screen, keys, store_op, rb1).0;
    let c2 = exec_op(c1, screen, keys, load_op, rb2).0;
    let base = c.address as int;
    assert(c1.memory == stored_regs(c.memory, c.registers, base, x as int));
    assert(c1.registers == c.registers && c1.address == c.address);
    assert(c2.registers == loaded_regs(c1.registers, c1.memory, base, x as int));
    lemma_stored_regs_pointwise(c.memory, c.registers, base, x as int);
    lemma_loaded_regs_pointwise(c.registers, c1.memory, base, x as int);
    assert(c2.registers =~= c.registers);
}

/// Law: the key-wait opcode `Fx0A` parks the engine on its target
/// register; while parked, every cycle is a complete no-op whatever byte
/// the random source would give; and a delivered key press writes the key
/// index into the target register, changes nothing else in the register
/// file, and resumes execution.
pub proof fn lemma_key_wait(c: CpuView, screen: Seq<u8>, keys: Seq<bool>, x: u16, rb: u8, rb2: u8, key: u8)
    requires
        cpu_wf(c),
        x < 16,
    ensures
        ({
            let op = (0xF00A + x * 0x100) as u16;
            let c1 = exec_op(c, screen, keys, op, rb).0;
            &&& c1.state == RunState::WaitingForKeyPress(x as u8)
            &&& cycle_result(c1, screen, keys, rb2).0 == c1
            &&& cycle_result(c1, screen, keys, rb2).1 == screen
            &&& cycle_result(c1, screen, keys, rb2).2 is None
            &&& after_key(c1, key).registers == c1.registers.update(x as int, key)
            &&& after_key(c1, key).state == RunState::Running
        }),
{
    let op = (0xF00A + x * 0x100) as u16;
    assert(op_top(op) == 15 && op % 0x100 == 0x0A && op_x(op) == x);
}

/// Relies on rand::random: one byte from the thread-local generator, for
/// the random-mask opcode. Nothing can be promised of the value; `cycle`
/// states what holds whatever byte came back.
#[verifier::external_body]
fn random_byte() -> u8 {
    rand::random::<u8>()
}

pub struct Cpu {
    memory: Vec<u8>,
    registers: Vec<u8>,
    address: u16,
    delay_timer: u8,
    sound_timer: u8,
    pc: u16,
    stack: Vec<u16>,
    state: RunState,
}

impl View for Cpu {
    type V = CpuView;

    closed spec fn view(&self) -> CpuView {
        CpuView {
            memory: self.memory@,
            registers: self.registers@,
            address: self.address,
            delay_timer: self.delay_timer,
            sound_timer: self.sound_timer,
            pc: self.pc,
            stack: self.stack@,
            state: self.state,
        }
    }
}

#[verifier::rlimit(100)]
fn font_vec() -> (v: Vec<u8>)
    ensures
        v@ == font_table(),
{
    let mut v: Vec<u8> = Vec::new();
    v.push(0xF0); v.push(0x90); v.push(0x90); v.push(0x90); v.push(0xF0);
    v.push(0x20); v.push(0x60); v.push(0x20); v.push(0x20); v.push(0x70);
    v.push(0xF0); v.push(0x10); v.push(0xF0); v.push(0x80); v.push(0xF0);
    v.push(0xF0); v.push(0x10); v.push(0xF0); v.push(0x10); v.push(0xF0);
    v.push(0x90); v.push(0x90); v.push(0xF0); v.push(0x10); v.push(0x10);
    v.push(0xF0); v.push(0x80); v.push(0xF0); v.push(0x10); v.push(0xF0);
    v.push(0xF0); v.push(0x80); v.push(0xF0); v.push(0x90); v.push(0xF0);
    v.push(0xF0); v.push(0x10); v.push(0x20); v.push(0x40); v.push(0x40);
    v.push(0xF0); v.push(0x90); v.push(0xF0); v.push(0x90); v.push(0xF0);
    v.push(0xF0); v.push(0x90); v.push(0xF0); v.push(0x10); v.push(0xF0);
    v.push(0xF0); v.push(0x90); v.push(0xF0); v.push(0x90); v.push(0x90);
    v.push(0xE0); v.push(0x90); v.push(0xE0); v.push(0x90); v.push(0xE0);
    v.push(0xF0); v.push(0x80); v.push(0x80); v.push(0x80); v.push(0xF0);
    v.push(0xE0); v.push(0x90); v.push(0x90); v.push(0x90); v.push(0xE0);
    v.push(0xF0); v.push(0x80); v.push(0xF0); v.push(0x80); v.push(0xF0);
    v.push(0xF0); v.push(0x80); v.push(0xF0); v.push(0x80); v.push(0x80);
    proof {
        assert(v@ =~= font_table());
    }
    v
}

impl Cpu {
    pub open spec fn wf(&self) -> bool {
        cpu_wf(self@)
    }

    /// A fresh engine with the font table resident and nothing started.
    pub fn new() -> (c: Cpu)
        ensures
            c.wf(),
            c@ == initial_cpu(),
    {
        let mut memory: Vec<u8> = font_vec();
        while memory.len() < MEMORY_SIZE
            invariant
                80 <= memory@.len() <= 4096,
                forall|i: int| 0 <= i < 80 ==> memory@[i] == font_table()[i],
                forall|i: int| 80 <= i < memory@.len() ==> memory@[i] == 0,
            decreases 4096 - memory@.len(),
        {
            memory.push(0);
        }
        let mut registers: Vec<u8> = Vec::new();
        while registers.len() < 16
            invariant
                registers@.len() <= 16,
                forall|i: int| 0 <= i < registers@.len() ==> registers@[i] == 0,
            decreases 16 - registers@.len(),
        {
            registers.push(0);
        }
        let c = Cpu {
            memory,
            registers,
            address: 0,
            delay_timer: 0,
            sound_timer: 0,
            pc: PROGRAM_START,
            stack: Vec::new(),
            state: RunState::NotStarted,
        };
        proof {
            assert(c@.memory =~= initial_memory());
            assert(c@.registers =~= initial_cpu().registers);
            assert(c@ =~~= initial_cpu());
        }
        c
    }

    /// Copy a program into the area above `PROGRAM_START`, silently
    /// truncating to the space available, rewind the program counter and
    /// start running. Memory outside the copied region is left as it was,
    /// as are registers, stack and timers: a caller that needs a clean
    /// slate constructs a new engine.
    pub fn load_program(&mut self, program: &Vec<u8>)
        requires
            old(self).wf(),
        ensures
            final(self).wf(),
            final(self)@ == after_load(old(self)@, program@),
    {
        let n: usize = if program.len() > 3584 { 3584 } else { program.len() };
        let mut i: usize = 0;
        while i < n
            invariant
                old(self).wf(),
                i <= n,
                n == copy_len(program@),
                n <= program@.len(),
                self.memory@.len() == 4096,
                forall|j: int| 0x200 <= j < 0x200 + i ==> self.memory@[j] == program@[j - 0x200],
                forall|j: int| 0 <= j < 4096 && !(0x200 <= j < 0x200 + i)
                    ==> self.memory@[j] == old(self)@.memory[j],
                self.registers@ == old(self)@.registers,
                self.stack@ == old(self)@.stack,
                self.address == old(self)@.address,
                self.delay_timer == old(self)@.delay_timer,
                self.sound_timer == old(self)@.sound_timer,
                self.pc == old(self)@.pc,
                self.state == old(self)@.state,
            decreases n - i,
        {
            self.memory[0x200 + i] = program[i];
            i += 1;
        }
        self.pc = PROGRAM_START;
        self.state = RunState::Running;
        proof {
            assert(self@.memory =~= loaded_memory(old(self)@.memory, program@));
            assert(self@ =~~= after_load(old(self)@, program@));
        }
    }

    /// One timer tick, at the host's fixed cadence, independent of how many
    /// instruction cycles ran: each counter drops by 1 while above zero.
    pub fn update_timers(&mut self)
        requires
            old(self).wf(),
        ensures
            final(self).wf(),
            final(self)@ == ticked(old(self)@),
    {
        if self.delay_timer > 0 {
            self.delay_timer = self.delay_timer - 1;
        }
        if self.sound_timer > 0 {
            self.sound_timer = self.sound_timer - 1;
        }
        proof {
            assert(self@ =~~= ticked(old(self)@));
        }
    }

    /// True while the engine is parked on the key-wait opcode.
    pub fn is_paused(&self) -> (r: bool)
        ensures
            r == (self@.state matches RunState::WaitingForKeyPress(_)),
    {
        match self.state {
            RunState::WaitingForKeyPress(_) => true,
            _ => false,
        }
    }

    /// Deliver a key press. If the engine is parked on the key-wait opcode,
    /// the key index lands in the opcode's target register and execution
    /// resumes with the next cycle; in any other state this leaves the
    /// engine untouched (the keyboard snapshot is the host's separate
    /// delivery).
    pub fn clear_pause(&mut self, key: u8)
        requires
            old(self).wf(),
        ensures
            final(self).wf(),
            final(self)@ == after_key(old(self)@, key),
    {
        match self.state {
            RunState::WaitingForKeyPress(t) => {
                self.registers[t as usize] = key;
                self.state = RunState::Running;
            }
            _ => {}
        }
        proof {
            assert(self@ =~~= after_key(old(self)@, key));
        }
    }

    fn op_alu(&mut self, opcode: u16)
        requires
            old(self).wf(),
        ensures
            final(self).wf(),
            final(self)@ == exec_alu(old(self)@, opcode),
    {
        let x: usize = ((opcode / 0x100) % 16) as usize;
        let y: usize = ((opcode / 16) % 16) as usize;
        let sub: u16 = opcode % 16;
        let vx: u8 = self.registers[x];
        let vy: u8 = self.registers[y];
        if sub <= 7 || sub == 0xE {
            let result: u8 = if sub == 0 { vy }
                else if sub == 1 { vx | vy }
                else if sub == 2 { vx & vy }
                else if sub == 3 { vx ^ vy }
                else if sub == 4 { vx.wrapping_add(vy) }
                else if sub == 5 { vx.wrapping_sub(vy) }
                else if sub == 6 { vx / 2 }
                else if sub == 7 { vy.wrapping_sub(vx) }
                else { vx.wrapping_add(vx) };
            self.registers[x] = result;
            if sub == 4 {
                self.registers[0xF] = if (vx as u16) + (vy as u16) > 255 { 1 } else { 0 };
            } else if sub == 5 {
                self.registers[0xF] = if vx >= vy { 1 } else { 0 };
            } else if sub == 6 {
                self.registers[0xF] = vx % 2;
            } else if sub == 7 {
                self.registers[0xF] = if vy >= vx { 1 } else { 0 };
            } else if sub == 0xE {
                self.registers[0xF] = vx / 128;
            }
        }
        proof {
            assert(self@ =~~= exec_alu(old(self)@, opcode));
        }
    }

    #[verifier::rlimit(50)]
    fn op_fx(&mut self, opcode: u16) -> (r: Result<(), CpuError>)
        requires
            old(self).wf(),
        ensures
            final(self).wf(),
            final(self)@ == exec_fx(old(self)@, opcode).0,
            r == as_result(exec_fx(old(self)@, opcode).1),
    {
        let x: usize = ((opcode / 0x100) % 16) as usize;
        let vx: u8 = self.registers[x];
        let nn: u16 = opcode % 0x100;
        if nn == 0x07 {
            self.registers[x] = self.delay_timer;
        } else if nn == 0x0A {
            self.state = RunState::WaitingForKeyPress(x as u8);
        } else if nn == 0x15 {
            self.delay_timer = vx;
        } else if nn == 0x18 {
            self.sound_timer = vx;
        } else if nn == 0x1E {
            self.address = self.address.wrapping_add(vx as u16);
        } else if nn == 0x29 {
            self.address = (vx as u16) * 5;
        } else if nn == 0x33 {
            if self.address as usize + 3 > MEMORY_SIZE {
                self.state = RunState::Halted;
                return Err(CpuError::OutOfBoundsMemoryAccess);
            }
            let a: usize = self.address as usize;
            self.memory[a] = vx / 100;
            self.memory[a + 1] = (vx % 100) / 10;
            self.memory[a + 2] = vx % 10;
        } else if nn == 0x55 {
            if self.address as usize + x + 1 > MEMORY_SIZE {
                self.state = RunState::Halted;
                return Err(CpuError::OutOfBoundsMemoryAccess);
            }
            let a: usize = self.address as usize;
            let mut k: usize = 0;
            while k <= x
                invariant
                    x < 16,
                    k <= x + 1,
                    a + x + 1 <= 4096,
                    self.memory@.len() == 4096,
                    self.registers@.len() == 16,
                    self.memory@ == stored_regs(old(self)@.memory, old(self)@.registers, a as int, k as int - 1),
                    self.registers@ == old(self)@.registers,
                    self.address == old(self)@.address,
                    self.delay_timer == old(self)@.delay_timer,
                    self.sound_timer == old(self)@.sound_timer,
                    self.pc == old(self)@.pc,
                    self.stack@ == old(self)@.stack,
                    self.state == old(self)@.state,
                decreases x + 1 - k,
            {
                self.memory[a + k] = self.registers[k];
                k += 1;
            }
        } else if nn == 0x65 {
            if self.address as usize + x + 1 > MEMORY_SIZE {
                self.state = RunState::Halted;
                return Err(CpuError::OutOfBoundsMemoryAccess);
            }
            let a: usize = self.address as usize;
            let mut k: usize = 0;
            while k <= x
                invariant
                    x < 16,
                    k <= x + 1,
                    a + x + 1 <= 4096,
                    self.memory@.len() == 4096,
                    self.registers@.len() == 16,
                    self.registers@ == loaded_regs(old(self)@.registers, old(self)@.memory, a as int, k as int - 1),
                    self.memory@ == old(self)@.memory,
                    self.address == old(self)@.address,
                    self.delay_timer == old(self)@.delay_timer,
                    self.sound_timer == old(self)@.sound_timer,
                    self.pc == old(self)@.pc,
                    self.stack@ == old(self)@.stack,
                    self.state == old(self)@.state,
                decreases x + 1 - k,
            {
                self.registers[k] = self.memory[a + k];
                k += 1;
            }
        }
        proof {
            assert(self@ =~~= exec_fx(old(self)@, opcode).0);
        }
        Ok(())
    }

    fn op_draw(&mut self, opcode: u16, display: &mut Display) -> (r: Result<(), CpuError>)
        requires
            old(self).wf(),
            old(display).wf(),
        ensures
            final(self).wf(),
            final(display).wf(),
            final(self)@ == exec_draw(old(self)@, old(display)@, opcode).0,
            final(display)@ == exec_draw(old(self)@, old(display)@, opcode).1,
            r == as_result(exec_draw(old(self)@, old(display)@, opcode).2),
            final(display).spec_scale() == old(display).spec_scale(),
    {
        let n: u16 = opcode % 16;
        let x: usize = ((opcode / 0x100) % 16) as usize;
        let y: usize = ((opcode / 16) % 16) as usize;
        let xr: u8 = self.registers[x] % 64;
        let yr: u8 = self.registers[y] % 32;
        if n > 0 && self.address as usize + n as usize > MEMORY_SIZE {
            self.state = RunState::Halted;
            return Err(CpuError::OutOfBoundsMemoryAccess);
        }
        let mut collision: bool = false;
        let mut row: u16 = 0;
        while row < n
            invariant
                self.wf(),
                display.wf(),
                xr < 64,
                yr < 32,
                row <= n,
                n < 16,
                xr == old(self)@.registers[op_x(opcode)] % 64,
                yr == old(self)@.registers[op_y(opcode)] % 32,
                n == op_n(opcode),
                n > 0 ==> self@.address + n <= 4096,
                self@ == old(self)@,
                draw_rows(old(display)@, self@.memory, self@.address as int, xr as int, yr as int, 0, n as int).0
                    == draw_rows(display@, self@.memory, self@.address as int, xr as int, yr as int, row as int, n as int).0,
                draw_rows(old(display)@, self@.memory, self@.address as int, xr as int, yr as int, 0, n as int).1
                    == (collision || draw_rows(display@, self@.memory, self@.address as int, xr as int, yr as int, row as int, n as int).1),
                display.spec_scale() == old(display).spec_scale(),
            decreases n - row,
        {
            let ghost s0 = display@;
            let sprite: u8 = self.memory[(self.address + row) as usize];
            let hit: bool = display.draw_sprite_row(sprite, xr, yr + row as u8);
            if hit {
                collision = true;
            }
            proof {
                assert(draw_rows(s0, self@.memory, self@.address as int, xr as int, yr as int, row as int, n as int).0
                    == draw_rows(display@, self@.memory, self@.address as int, xr as int, yr as int, row as int + 1, n as int).0);
            }
            row = row + 1;
        }
        let flag: u8 = if collision { 1 } else { 0 };
        self.registers[0xF] = flag;
        proof {
            assert(self@ =~~= exec_draw(old(self)@, old(display)@, opcode).0);
        }
        Ok(())
    }

    /// Decode and execute one opcode against the framebuffer and keyboard
    /// snapshot, unconditionally (the run-state guard and the fetch live in
    /// `cycle`). `rand_byte` supplies the byte the random opcode masks;
    /// every other opcode ignores it, which makes the dispatch a function
    /// of its arguments alone.
    #[verifier::rlimit(100)]
    pub fn execute_instruction(&mut self, opcode: u16, rand_byte: u8, display: &mut Display, keyboard: &Keyboard) -> (r: Result<(), CpuError>)
        requires
            old(self).wf(),
            old(display).wf(),
            keyboard.wf(),
            old(self)@.pc + 2 <= 4096,
        ensures
            final(self).wf(),
            final(display).wf(),
            final(self)@ == exec_op(old(self)@, old(display)@, keyboard@, opcode, rand_byte).0,
            final(display)@ == exec_op(old(self)@, old(display)@, keyboard@, opcode, rand_byte).1,
            r == as_result(exec_op(old(self)@, old(display)@, keyboard@, opcode, rand_byte).2),
            final(display).spec_scale() == old(display).spec_scale(),
    {
        self.pc = self.pc + 2;
        proof {
            assert(self@ =~~= (CpuView { pc: (old(self)@.pc + 2) as u16, ..old(self)@ }));
        }
        let x: usize = ((opcode / 0x100) % 16) as usize;
        let y: usize = ((opcode / 16) % 16) as usize;
        let vx: u8 = self.registers[x];
        let vy: u8 = self.registers[y];
        let nn: u8 = (opcode % 0x100) as u8;
        let nnn: u16 = opcode % 0x1000;
        match opcode / 0x1000 {
            0x0 => {
                if opcode == 0x00E0 {
                    display.clear();
                } else if opcode == 0x00EE {
                    match self.stack.pop() {
                        Some(addr) => { self.pc = addr; }
                        None => {}
                    }
                }
            }
            0x1 => {
                self.pc = nnn;
            }
            0x2 => {
                if self.stack.len() >= STACK_LIMIT {
                    self.state = RunState::Halted;
                    return Err(CpuError::StackOverflow);
                }
                self.stack.push(self.pc);
                self.pc = nnn;
            }
            0x3 => {
                if vx == nn {
                    self.pc = self.pc + 2;
                }
            }
            0x4 => {
                if vx != nn {
                    self.pc = self.pc + 2;
                }
            }
            0x5 => {
                if opcode % 16 == 0 && vx == vy {
                    self.pc = self.pc + 2;
                }
            }
            0x6 => {
                self.registers[x] = nn;
            }
            0x7 => {
                self.registers[x] = vx.wrapping_add(nn);
            }
            0x8 => {
                self.op_alu(opcode);
            }
            0x9 => {
                if opcode % 16 == 0 && vx != vy {
                    self.pc = self.pc + 2;
                }
            }
            0xA => {
                self.address = nnn;
            }
            0xB => {
                self.address = nnn + (self.registers[0] as u16);
            }
            0xC => {
                self.registers[x] = rand_byte & nn;
            }
            0xD => {
                return self.op_draw(opcode, display);
            }
            0xE => {
                if opcode % 0x100 == 0x9E {
                    if keyboard.is_key_pressed(vx) {
                        self.pc = self.pc + 2;
                    }
                } else if opcode % 0x100 == 0xA1 {
                    if !keyboard.is_key_pressed(vx) {
                        self.pc = self.pc + 2;
                    }
                }
            }
            _ => {
                return self.op_fx(opcode);
            }
        }
        Ok(())
    }

    /// One instruction cycle: a no-op in any state but `Running`; a fetch
    /// past memory halts the engine and reports the fault; otherwise the
    /// fetched opcode executes. The random opcode draws its byte here, so
    /// the outcome is pinned only up to that byte, which the contract
    /// quantifies over.
    pub fn cycle(&mut self, display: &mut Display, keyboard: &Keyboard) -> (r: Result<(), CpuError>)
        requires
            old(self).wf(),
            old(display).wf(),
            keyboard.wf(),
        ensures
            final(self).wf(),
            final(display).wf(),
            exists|rb: u8|
                final(self)@ == #[trigger] cycle_result(old(self)@, old(display)@, keyboard@, rb).0
                && final(display)@ == cycle_result(old(self)@, old(display)@, keyboard@, rb).1
                && r == as_result(cycle_result(old(self)@, old(display)@, keyboard@, rb).2),
            !(old(self)@.state is Running) ==> final(self)@ == old(self)@
                && final(display)@ == old(display)@
                && r == Ok::<(), CpuError>(()),
            final(display).spec_scale() == old(display).spec_scale(),
    {
        match self.state {
            RunState::Running => {}
            _ => {
                proof {
                    assert(self@ == cycle_result(old(self)@, old(display)@, keyboard@, 0u8).0);
                }
                return Ok(());
            }
        }
        if self.pc >= 4095 {
            self.state = RunState::Halted;
            proof {
                assert(self@ == cycle_result(old(self)@, old(display)@, keyboard@, 0u8).0);
            }
            return Err(CpuError::OutOfBoundsMemoryAccess);
        }
        let pc: usize = self.pc as usize;
        let hi: u8 = self.memory[pc];
        let lo: u8 = self.memory[pc + 1];
        let opcode: u16 = (hi as u16) * 256 + (lo as u16);
        let rb: u8 = random_byte();
        let r = self.execute_instruction(opcode, rb, display, keyboard);
        proof {
            assert(opcode == spec_fetch(old(self)@.memory, old(self)@.pc as int));
            assert(self@ == cycle_result(old(self)@, old(display)@, keyboard@, rb).0);
        }
        r
    }

    /// Invoke the single-cycle operation exactly `n` times. The run-state
    /// guard is honored each iteration, so an engine that parks on the
    /// key-wait opcode or halts on a fault consumes the remainder of the
    /// batch as no-ops; the run-state stays inspectable afterwards. `n` is
    /// the caller's throughput knob, decoupled from the timer cadence.
    pub fn run_cycles(&mut self, n: u32, display: &mut Display, keyboard: &Keyboard)
        requires
            old(self).wf(),
            old(display).wf(),
            keyboard.wf(),
        ensures
            final(self).wf(),
            final(display).wf(),
            exists|rbs: Seq<u8>|
                rbs.len() == n
                && final(self)@ == #[trigger] run_result(old(self)@, old(display)@, keyboard@, rbs).0
                && final(display)@ == run_result(old(self)@, old(display)@, keyboard@, rbs).1,
            final(display).spec_scale() == old(display).spec_scale(),
    {
        let ghost mut rbs: Seq<u8> = Seq::empty();
        let mut i: u32 = 0;
        while i < n
            invariant
                self.wf(),
                display.wf(),
                keyboard.wf(),
                i <= n,
                rbs.len() == i,
                self@ == run_result(old(self)@, old(display)@, keyboard@, rbs).0,
                display@ == run_result(old(self)@, old(display)@, keyboard@, rbs).1,
                display.spec_scale() == old(display).spec_scale(),
            decreases n - i,
        {
            let ghost c_pre = self@;
            let ghost s_pre = display@;
            let _ = self.cycle(display, keyboard);
            proof {
                let rb = choose|rb: u8|
                    self@ == #[trigger] cycle_result(c_pre, s_pre, keyboard@, rb).0
                    && display@ == cycle_result(c_pre, s_pre, keyboard@, rb).1;
                let prev = rbs;
                rbs = rbs.push(rb);
                assert(rbs.drop_last() =~= prev);
                assert(rbs.last() == rb);
                assert(self@ == run_result(old(self)@, old(display)@, keyboard@, rbs).0);
                assert(display@ == run_result(old(self)@, old(display)@, keyboard@, rbs).1);
            }
            i = i + 1;
        }
    }

    /// Current run-state, for the host to poll.
    pub fn run_state(&self) -> (r: RunState)
        ensures
            r == self@.state,
    {
        self.state
    }

    /// One general-purpose register.
    pub fn register(&self, x: u8) -> (r: u8)
        requires
            self.wf(),
            x < 16,
        ensures
            r == self@.registers[x as int],
    {
        self.registers[x as usize]
    }

    /// The index (address) register.
    pub fn address(&self) -> (r: u16)
        ensures
            r == self@.address,
    {
        self.address
    }

    /// The program counter.
    pub fn pc(&self) -> (r: u16)
        ensures
            r == self@.pc,
    {
        self.pc
    }

    /// The delay timer.
    pub fn delay_timer(&self) -> (r: u8)
        ensures
            r == self@.delay_timer,
    {
        self.delay_timer
    }

    /// The sound timer.
    pub fn sound_timer(&self) -> (r: u8)
        ensures
            r == self@.sound_timer,
    {
        self.sound_timer
    }

    /// Whether the audio collaborator should be emitting a tone.
    pub fn sound_active(&self) -> (r: bool)
        ensures
            r == (self@.sound_timer > 0),
    {
        self.sound_timer > 0
    }

    /// One byte of memory.
    pub fn memory_byte(&self, addr: u16) -> (r: u8)
        requires
            self.wf(),
            addr < 4096,
        ensures
            r == self@.memory[addr as int],
    {
        self.memory[addr as usize]
    }

    /// How many return addresses are pending.
    pub fn stack_depth(&self) -> (r: usize)
        ensures
            r == self@.stack.len(),
    {
        self.stack.len()
    }
}

} // verus!
