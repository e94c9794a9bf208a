use vstd::prelude::*;

use crate::addressing_mode::AddressingMode;
use crate::cpu_status::CpuStatus;

verus! {

/// Number of addressable bytes: every 16-bit address is valid.
pub const MEMORY_SIZE: usize = 0x10000;

/// Step budget of the run loop: more steps than there are distinct
/// program-counter values, so a run that spends it has revisited a
/// program counter and, by `lemma_never_stops`, would never halt.
pub const RUN_STEP_LIMIT: u64 = 0x20000;

/// Mathematical model of the whole machine: the register file, the raw
/// status byte, and the memory image as a sequence of bytes.
pub struct CpuView {
    pub pc: u16,
    pub sp: u8,
    pub a: u8,
    pub x: u8,
    pub y: u8,
    pub status: u8,
    pub memory: Seq<u8>,
}

/// The 16-bit successor of `addr`, wrapping at the top of the address
/// space: 0xFFFF is followed by 0x0000.
pub open spec fn wrap_inc(addr: u16) -> u16 {
    if addr == 0xFFFF {
        0
    } else {
        (addr + 1) as u16
    }
}

/// The low byte of a 16-bit value.
pub open spec fn lo_byte(value: u16) -> u8 {
    (value & 0xFF) as u8
}

/// The high byte of a 16-bit value.
pub open spec fn hi_byte(value: u16) -> u8 {
    (value >> 8) as u8
}

/// The 16-bit value assembled from a low and a high byte.
pub open spec fn word_from_bytes(lo: u8, hi: u8) -> u16 {
    (lo as u16) | ((hi as u16) << 8)
}

/// The little-endian 16-bit value stored at `addr`: low byte at `addr`,
/// high byte at the wrapping successor of `addr`.
pub open spec fn spec_read_u16(mem: Seq<u8>, addr: u16) -> u16 {
    word_from_bytes(mem[addr as int], mem[wrap_inc(addr) as int])
}

/// The memory image after storing `value` little-endian at `addr`.
pub open spec fn spec_write_u16(mem: Seq<u8>, addr: u16, value: u16) -> Seq<u8> {
    mem.update(addr as int, lo_byte(value)).update(wrap_inc(addr) as int, hi_byte(value))
}

/// Law: storing a 16-bit value little-endian and reading it back at the
/// same address yields that value, at every address — including 0xFFFF,
/// where the high byte wraps around to address 0x0000.
pub proof fn lemma_write_read_u16(mem: Seq<u8>, addr: u16, value: u16)
    requires
        mem.len() == MEMORY_SIZE,
    ensures
        spec_read_u16(spec_write_u16(mem, addr, value), addr) == value,
{
    assert(value & 0xFF < 0x100) by (bit_vector);
    assert(value >> 8 < 0x100) by (bit_vector);
    assert(((value & 0xFF) | ((value >> 8) << 8)) == value) by (bit_vector);
}

/// Base address at which program images are loaded, and the value written
/// to the reset vector by `load`.
pub const LOAD_BASE: u16 = 0x8000;

/// Address of the reset vector: the two bytes at 0xFFFC-0xFFFD from which
/// `reset` takes the entry point.
pub const RESET_VECTOR: u16 = 0xFFFC;

/// The memory image with `data` copied in starting at `base`; bytes
/// outside the copied range are untouched.
pub open spec fn spec_copy_into(mem: Seq<u8>, base: int, data: Seq<u8>) -> Seq<u8> {
    Seq::new(mem.len(), |i: int| if base <= i < base + data.len() {
        data[i - base]
    } else {
        mem[i]
    })
}

/// The memory image after loading a program: the program bytes sit at the
/// load base, and the reset vector holds the load base address.
pub open spec fn spec_load(mem: Seq<u8>, program: Seq<u8>) -> Seq<u8> {
    spec_write_u16(spec_copy_into(mem, LOAD_BASE as int, program), RESET_VECTOR, LOAD_BASE)
}

/// The machine state after a reset: PC taken from the reset vector, SP at
/// its power-on value, registers and flags cleared, memory untouched.
pub open spec fn spec_reset(s: CpuView) -> CpuView {
    CpuView {
        pc: spec_read_u16(s.memory, RESET_VECTOR),
        sp: 0xFD,
        a: 0,
        x: 0,
        y: 0,
        status: 0,
        memory: s.memory,
    }
}

/// The machine state from which execution begins after a program has been
/// loaded into the machine `s` and the machine has been reset.
pub open spec fn spec_loaded_start(s: CpuView, program: Seq<u8>) -> CpuView {
    spec_reset((CpuView { memory: spec_load(s.memory, program), ..s }))
}

/// Law: loading a program and then resetting puts the program counter at
/// exactly the load base address and zeroes A, X and Y, whatever the
/// machine held before.
pub proof fn lemma_load_then_reset(s: CpuView, program: Seq<u8>)
    requires
        s.memory.len() == MEMORY_SIZE,
        program.len() <= MEMORY_SIZE - LOAD_BASE,
    ensures
        spec_loaded_start(s, program).pc == LOAD_BASE,
        spec_loaded_start(s, program).a == 0,
        spec_loaded_start(s, program).x == 0,
        spec_loaded_start(s, program).y == 0,
        spec_loaded_start(s, program).sp == 0xFD,
        spec_loaded_start(s, program).status == 0,
{
    lemma_write_read_u16(spec_copy_into(s.memory, LOAD_BASE as int, program), RESET_VECTOR,
        LOAD_BASE);
}

/// The addressing modes the resolver currently implements. The remaining
/// tags are decoded by no opcode in the instruction table yet; handing one
/// to the resolver is a caller error, ruled out by its precondition.
pub open spec fn mode_supported(mode: AddressingMode) -> bool {
    match mode {
        AddressingMode::Immediate => true,
        AddressingMode::ZeroPage => true,
        AddressingMode::ZeroPageX => true,
        AddressingMode::ZeroPageY => true,
        AddressingMode::Absolute => true,
        AddressingMode::AbsoluteX => true,
        AddressingMode::AbsoluteY => true,
        _ => false,
    }
}

/// How many operand bytes a mode's encoding occupies after the opcode.
pub open spec fn spec_operand_width(mode: AddressingMode) -> nat {
    match mode {
        AddressingMode::Immediate => 1,
        AddressingMode::ZeroPage => 1,
        AddressingMode::ZeroPageX => 1,
        AddressingMode::ZeroPageY => 1,
        AddressingMode::Absolute => 2,
        AddressingMode::AbsoluteX => 2,
        AddressingMode::AbsoluteY => 2,
        _ => 0,
    }
}

/// The program counter after the operand encoding has been consumed: it
/// advances by exactly the operand width, wrapping at the top of the
/// address space.
pub open spec fn spec_operand_pc(s: CpuView, mode: AddressingMode) -> u16 {
    if spec_operand_width(mode) == 2 {
        wrap_inc(wrap_inc(s.pc))
    } else if spec_operand_width(mode) == 1 {
        wrap_inc(s.pc)
    } else {
        s.pc
    }
}

/// The effective address the current instruction operates on, given the
/// machine state at the start of its operand encoding. Zero-page indexed
/// modes add the index register with 8-bit wraparound and so stay inside
/// the zero page; absolute indexed modes add it with 16-bit wraparound.
pub open spec fn spec_operand_addr(s: CpuView, mode: AddressingMode) -> u16 {
    match mode {
        AddressingMode::Immediate => s.pc,
        AddressingMode::ZeroPage => s.memory[s.pc as int] as u16,
        AddressingMode::ZeroPageX => ((s.memory[s.pc as int] + s.x) % 0x100) as u16,
        AddressingMode::ZeroPageY => ((s.memory[s.pc as int] + s.y) % 0x100) as u16,
        AddressingMode::Absolute => spec_read_u16(s.memory, s.pc),
        AddressingMode::AbsoluteX => ((spec_read_u16(s.memory, s.pc) + s.x) % 0x10000) as u16,
        AddressingMode::AbsoluteY => ((spec_read_u16(s.memory, s.pc) + s.y) % 0x10000) as u16,
        _ => 0,
    }
}

/// What a single fetch-decode-execute step reported: the machine is still
/// running, has halted on the BRK opcode, or has fetched an opcode the
/// instruction table does not implement.
#[derive(Debug, Clone, Copy, PartialEq, Eq, Structural)]
pub enum StepOutcome {
    Running,
    Halted,
    UnknownOpcode,
}

/// What one step reports from state `s`: BRK halts, the implemented
/// opcodes keep running, anything else stops with a diagnostic outcome.
pub open spec fn spec_step_outcome(s: CpuView) -> StepOutcome {
    let opcode: u8 = s.memory[s.pc as int];
    if opcode == 0x00 {
        StepOutcome::Halted
    } else if opcode == 0xA9 || opcode == 0xA5 || opcode == 0xB5 || opcode == 0xAD || opcode
        == 0xBD || opcode == 0xB9 || opcode == 0xAA {
        StepOutcome::Running
    } else {
        StepOutcome::UnknownOpcode
    }
}

/// The machine state after one fetch-decode-execute step from `s`: the
/// opcode byte is fetched (PC advances past it, wrapping), then the
/// decoded instruction's semantics run. On BRK or an unknown opcode only
/// the fetch has happened.
pub open spec fn spec_step_state(s: CpuView) -> CpuView {
    let opcode: u8 = s.memory[s.pc as int];
    let fetched = CpuView { pc: wrap_inc(s.pc), ..s };
    if opcode == 0xA9 {
        spec_lda(fetched, AddressingMode::Immediate)
    } else if opcode == 0xA5 {
        spec_lda(fetched, AddressingMode::ZeroPage)
    } else if opcode == 0xB5 {
        spec_lda(fetched, AddressingMode::ZeroPageX)
    } else if opcode == 0xAD {
        spec_lda(fetched, AddressingMode::Absolute)
    } else if opcode == 0xBD {
        spec_lda(fetched, AddressingMode::AbsoluteX)
    } else if opcode == 0xB9 {
        spec_lda(fetched, AddressingMode::AbsoluteY)
    } else if opcode == 0xAA {
        spec_tax(fetched)
    } else {
        fetched
    }
}

/// The machine state after `n` fetch-decode-execute steps from `s`.
pub open spec fn spec_run(s: CpuView, n: nat) -> CpuView
    decreases n,
{
    if n == 0 {
        s
    } else {
        spec_run(spec_step_state(s), (n - 1) as nat)
    }
}

/// Holds when the step taken from state `s` reports that the machine is
/// still running.
pub open spec fn spec_running(s: CpuView) -> bool {
    spec_step_outcome(s) == StepOutcome::Running
}

/// Running one more step from `s` is the same as stepping once from the
/// state `n` steps in: the run unfolds at either end.
pub proof fn lemma_run_unfold_back(s: CpuView, n: nat)
    ensures
        spec_run(s, n + 1) == spec_step_state(spec_run(s, n)),
    decreases n,
{
    assert(spec_run(s, n + 1) == spec_run(spec_step_state(s), n));
    if n > 0 {
        lemma_run_unfold_back(spec_step_state(s), (n - 1) as nat);
    }
}

/// A step changes neither the memory image nor its size: none of the
/// implemented instructions writes to memory.
pub proof fn lemma_run_memory_unchanged(s: CpuView, n: nat)
    ensures
        spec_run(s, n).memory == s.memory,
    decreases n,
{
    if n > 0 {
        lemma_run_memory_unchanged(spec_step_state(s), (n - 1) as nat);
    }
}

/// One step drives the next program counter and the reported outcome by
/// the current program counter and the memory image alone: no implemented
/// instruction writes memory or branches on register state.
proof fn lemma_step_pc_determined(s1: CpuView, s2: CpuView)
    requires
        s1.memory == s2.memory,
        s1.pc == s2.pc,
    ensures
        spec_step_outcome(s1) == spec_step_outcome(s2),
        spec_step_state(s1).pc == spec_step_state(s2).pc,
        spec_step_state(s1).memory == s1.memory,
{
}

/// Running `m + n` steps is running `m` steps and then `n` more.
proof fn lemma_run_add(s: CpuView, m: nat, n: nat)
    ensures
        spec_run(s, m + n) == spec_run(spec_run(s, m), n),
    decreases m,
{
    if m > 0 {
        lemma_run_add(spec_step_state(s), (m - 1) as nat, n);
    }
}

/// Along a whole run, the program counters and the reported outcomes are
/// determined by the starting program counter and the memory image alone.
proof fn lemma_run_pc_determined(s1: CpuView, s2: CpuView, n: nat)
    requires
        s1.memory == s2.memory,
        s1.pc == s2.pc,
    ensures
        spec_run(s1, n).pc == spec_run(s2, n).pc,
        spec_step_outcome(spec_run(s1, n)) == spec_step_outcome(spec_run(s2, n)),
    decreases n,
{
    lemma_step_pc_determined(s1, s2);
    if n > 0 {
        lemma_run_pc_determined(spec_step_state(s1), spec_step_state(s2), (n - 1) as nat);
    }
}

/// The program-counter values of the first `k` states of the run from
/// `s`, as a set of integers.
spec fn pc_set(s: CpuView, k: nat) -> Set<int>
    decreases k,
{
    if k == 0 {
        Set::empty()
    } else {
        pc_set(s, (k - 1) as nat).insert(spec_run(s, (k - 1) as nat).pc as int)
    }
}

/// Membership in `pc_set`: exactly the program counters of the first `k`
/// states.
proof fn lemma_pc_set_contains(s: CpuView, k: nat, p: int)
    ensures
        pc_set(s, k).contains(p) <==> exists|m: nat| m < k && (#[trigger] spec_run(s, m)).pc == p,
    decreases k,
{
    if k > 0 {
        lemma_pc_set_contains(s, (k - 1) as nat, p);
        if spec_run(s, (k - 1) as nat).pc == p {
            assert(((k - 1) as nat) < k && spec_run(s, (k - 1) as nat).pc == p);
        }
    }
}

/// If the first `k` states all show distinct program counters, `pc_set`
/// has exactly `k` elements, all of them valid addresses.
proof fn lemma_pc_set_len(s: CpuView, k: nat)
    requires
        forall|i: nat, j: nat|
            i < j && j < k ==> (#[trigger] spec_run(s, i)).pc != (#[trigger] spec_run(s, j)).pc,
    ensures
        pc_set(s, k).finite(),
        pc_set(s, k).len() == k,
        pc_set(s, k).subset_of(vstd::set_lib::set_int_range(0, MEMORY_SIZE as int)),
    decreases k,
{
    if k > 0 {
        lemma_pc_set_len(s, (k - 1) as nat);
        let p = spec_run(s, (k - 1) as nat).pc as int;
        lemma_pc_set_contains(s, (k - 1) as nat, p);
        assert(!pc_set(s, (k - 1) as nat).contains(p));
        vstd::set::axiom_set_insert_finite(pc_set(s, (k - 1) as nat), p);
        vstd::set::axiom_set_insert_len(pc_set(s, (k - 1) as nat), p);
    }
}

/// Pigeonhole over the address space: among the first `MEMORY_SIZE + 1`
/// states of any run, some program counter value appears twice.
proof fn lemma_pc_revisited(s: CpuView) -> (r: (nat, nat))
    ensures
        r.0 < r.1 <= MEMORY_SIZE,
        spec_run(s, r.0).pc == spec_run(s, r.1).pc,
{
    if forall|i: nat, j: nat|
        i < j && j < MEMORY_SIZE + 1 ==> (#[trigger] spec_run(s, i)).pc != (#[trigger] spec_run(
            s,
            j,
        )).pc {
        lemma_pc_set_len(s, (MEMORY_SIZE + 1) as nat);
        vstd::set_lib::lemma_int_range(0, MEMORY_SIZE as int);
        vstd::set_lib::lemma_len_subset(
            pc_set(s, (MEMORY_SIZE + 1) as nat),
            vstd::set_lib::set_int_range(0, MEMORY_SIZE as int),
        );
        assert(false);
        (0, 0)
    } else {
        let (i, j): (nat, nat) = choose|i: nat, j: nat|
            i < j && j < MEMORY_SIZE + 1 && (#[trigger] spec_run(s, i)).pc == (#[trigger] spec_run(
                s,
                j,
            )).pc;
        (i, j)
    }
}

/// Once a program counter has been revisited with every step so far still
/// Running, every later step keeps Running: the program counters cycle,
/// and each later state's outcome equals that of an earlier one.
proof fn lemma_running_from(s: CpuView, i: nat, j: nat, k: nat)
    requires
        i < j <= MEMORY_SIZE,
        spec_run(s, i).pc == spec_run(s, j).pc,
        forall|m: nat| m <= MEMORY_SIZE ==> spec_running(#[trigger] spec_run(s, m)),
    ensures
        spec_running(spec_run(s, k)),
    decreases k,
{
    if k > MEMORY_SIZE {
        let t = (k - j) as nat;
        lemma_run_add(s, i, t);
        lemma_run_add(s, j, t);
        lemma_run_memory_unchanged(s, i);
        lemma_run_memory_unchanged(s, j);
        lemma_run_pc_determined(spec_run(s, i), spec_run(s, j), t);
        lemma_running_from(s, i, j, (i + t) as nat);
    }
}

/// Law: a run whose first `MEMORY_SIZE + 1` states all report Running
/// never stops. By then some program counter has been revisited, and
/// since no implemented instruction writes memory or branches on register
/// state, the fetch sequence is cyclic from there on: no BRK or unknown
/// opcode can ever be reached.
pub proof fn lemma_never_stops(s: CpuView)
    requires
        forall|m: nat| m <= MEMORY_SIZE ==> spec_running(#[trigger] spec_run(s, m)),
    ensures
        forall|k: nat| spec_running(#[trigger] spec_run(s, k)),
{
    let (i, j): (nat, nat) = lemma_pc_revisited(s);
    assert forall|k: nat| spec_running(#[trigger] spec_run(s, k)) by {
        lemma_running_from(s, i, j, k);
    }
}

/// What a full run of the loop guarantees: the machine took some number
/// `n` of steps (at most `limit`), every step before the last reported
/// Running, the final state is exactly the `n`-step unfolding of the
/// small-step semantics, and the returned outcome is the last step's
/// report — Running exactly when the budget ran out first.
pub open spec fn spec_interpret_post(
    s0: CpuView,
    s1: CpuView,
    r: StepOutcome,
    limit: nat,
) -> bool {
    exists|n: nat|
        #![trigger spec_run(s0, n)]
        {
            &&& n <= limit
            &&& s1 == spec_run(s0, n)
            &&& (forall|k: nat| k + 1 < n ==> spec_running(spec_run(s0, k)))
            &&& (r == StepOutcome::Running ==> n == limit && (n == 0 || spec_running(
                spec_run(s0, (n - 1) as nat),
            )))
            &&& (r != StepOutcome::Running ==> n >= 1 && r == spec_step_outcome(
                spec_run(s0, (n - 1) as nat),
            ))
        }
}

/// The machine state after executing LDA with the given addressing mode,
/// starting from the state at the beginning of the operand encoding: the
/// byte at the effective address lands in the accumulator, PC moves past
/// the operand, and the Zero/Negative flags track the loaded byte.
pub open spec fn spec_lda(s: CpuView, mode: AddressingMode) -> CpuView {
    CpuView {
        pc: spec_operand_pc(s, mode),
        a: s.memory[spec_operand_addr(s, mode) as int],
        status: spec_update_nz(s.status, s.memory[spec_operand_addr(s, mode) as int]),
        ..s
    }
}

/// The machine state after executing TAX: the accumulator is copied into
/// X and the Zero/Negative flags track the copied byte.
pub open spec fn spec_tax(s: CpuView) -> CpuView {
    CpuView { x: s.a, status: spec_update_nz(s.status, s.a), ..s }
}

/// The status byte after the shared two-flag update for a result byte:
/// Zero set iff the result is zero, Negative set iff its bit 7 is set,
/// every other bit unchanged.
pub open spec fn spec_update_nz(status: u8, value: u8) -> u8 {
    let with_zero = if value == 0 {
        status | CpuStatus::ZERO
    } else {
        status & !CpuStatus::ZERO
    };
    if value & 0x80 != 0 {
        with_zero | CpuStatus::NEGATIVE
    } else {
        with_zero & !CpuStatus::NEGATIVE
    }
}

/// Law: after the shared flag update runs for a result byte `value`, Zero
/// is set iff `value == 0` and Negative is set iff bit 7 of `value` is
/// set, whatever the flags held before; and every bit outside Zero and
/// Negative keeps its prior state.
pub proof fn lemma_update_nz(status: u8, value: u8)
    ensures
        crate::cpu_status::has_flags(spec_update_nz(status, value), CpuStatus::ZERO) <==> value
            == 0,
        crate::cpu_status::has_flags(spec_update_nz(status, value), CpuStatus::NEGATIVE) <==> value
            & 0x80 != 0,
        crate::cpu_status::has_flags(spec_update_nz(status, value), CpuStatus::NEGATIVE) <==> value
            >= 0x80,
        spec_update_nz(status, value) & !(CpuStatus::ZERO | CpuStatus::NEGATIVE) == status & !(
        CpuStatus::ZERO | CpuStatus::NEGATIVE),
{
    assert((value & 0x80 != 0) <==> value >= 0x80) by (bit_vector);
    assert(value == 0 ==> ((status | 0b10u8) | 0b10000000u8) & 0b10u8 == 0b10
        && ((status | 0b10u8) & !0b10000000u8) & 0b10u8 == 0b10) by (bit_vector);
    assert(value != 0 ==> ((status & !0b10u8) | 0b10000000u8) & 0b10u8 != 0b10
        && ((status & !0b10u8) & !0b10000000u8) & 0b10u8 != 0b10) by (bit_vector);
    assert(((status | 0b10u8) | 0b10000000u8) & 0b10000000u8 == 0b10000000
        && ((status & !0b10u8) | 0b10000000u8) & 0b10000000u8 == 0b10000000) by (bit_vector);
    assert(((status | 0b10u8) & !0b10000000u8) & 0b10000000u8 != 0b10000000
        && ((status & !0b10u8) & !0b10000000u8) & 0b10000000u8 != 0b10000000) by (bit_vector);
    assert(((status | 0b10u8) | 0b10000000u8) & !(0b10u8 | 0b10000000u8) == status & !(0b10u8
        | 0b10000000u8)) by (bit_vector);
    assert(((status | 0b10u8) & !0b10000000u8) & !(0b10u8 | 0b10000000u8) == status & !(0b10u8
        | 0b10000000u8)) by (bit_vector);
    assert(((status & !0b10u8) | 0b10000000u8) & !(0b10u8 | 0b10000000u8) == status & !(0b10u8
        | 0b10000000u8)) by (bit_vector);
    assert(((status & !0b10u8) & !0b10000000u8) & !(0b10u8 | 0b10000000u8) == status & !(0b10u8
        | 0b10000000u8)) by (bit_vector);
}

/// The 6502 core: registers, status flags, and a 64KB byte-addressable
/// memory image, driven by a fetch-decode-execute loop.
pub struct CPU {
    pub pc: u16,
    pub sp: u8,
    pub a: u8,
    pub x: u8,
    pub y: u8,
    pub status: CpuStatus,
    memory: Vec<u8>,
}

impl View for CPU {
    type V = CpuView;

    closed spec fn view(&self) -> CpuView {
        CpuView {
            pc: self.pc,
            sp: self.sp,
            a: self.a,
            x: self.x,
            y: self.y,
            status: self.status@,
            memory: self.memory@,
        }
    }
}

impl CPU {
    /// Well-formedness: the memory image spans the full 16-bit address
    /// space, so no address can be out of bounds.
    pub open spec fn wf(&self) -> bool {
        self@.memory.len() == MEMORY_SIZE
    }

    /// A powered-on machine: PC at 0, SP at 0xFD, registers and flags
    /// cleared, memory zeroed.
    pub fn new() -> (cpu: Self)
        ensures
            cpu.wf(),
            cpu@.pc == 0,
            cpu@.sp == 0xFD,
            cpu@.a == 0,
            cpu@.x == 0,
            cpu@.y == 0,
            cpu@.status == 0,
            forall|i: int| 0 <= i < cpu@.memory.len() ==> cpu@.memory[i] == 0,
    {
        let mut memory: Vec<u8> = Vec::new();
        while memory.len() < MEMORY_SIZE
            invariant
                memory@.len() <= MEMORY_SIZE,
                forall|i: int| 0 <= i < memory@.len() ==> memory@[i] == 0,
            decreases MEMORY_SIZE - memory@.len(),
        {
            memory.push(0);
        }
        CPU { pc: 0, sp: 0xFD, a: 0, x: 0, y: 0, status: CpuStatus::new(), memory }
    }

    /// The byte at `addr`.
    pub fn read(&self, addr: u16) -> (r: u8)
        requires
            self.wf(),
        ensures
            r == self@.memory[addr as int],
    {
        self.memory[addr as usize]
    }

    /// Stores `value` at `addr`; no other byte changes.
    pub fn write(&mut self, addr: u16, value: u8)
        requires
            old(self).wf(),
        ensures
            final(self).wf(),
            final(self)@ == (CpuView { memory: old(self)@.memory.update(addr as int, value), ..old(self)@ }),
    {
        self.memory[addr as usize] = value;
    }

    /// The little-endian 16-bit value at `addr`; the high byte comes from
    /// the wrapping successor address.
    pub fn mem_read_u16(&self, addr: u16) -> (r: u16)
        requires
            self.wf(),
        ensures
            r == spec_read_u16(self@.memory, addr),
    {
        let lo: u8 = self.read(addr);
        let hi: u8 = self.read(if addr == 0xFFFF { 0 } else { addr + 1 });
        (lo as u16) | ((hi as u16) << 8)
    }

    /// Stores `value` little-endian at `addr`: low byte at `addr`, high
    /// byte at the wrapping successor address.
    pub fn mem_write_u16(&mut self, addr: u16, value: u16)
        requires
            old(self).wf(),
        ensures
            final(self).wf(),
            final(self)@ == (CpuView {
                memory: spec_write_u16(old(self)@.memory, addr, value),
                ..old(self)@
            }),
    {
        proof {
            assert(value & 0xFF < 0x100) by (bit_vector);
            assert(value >> 8 < 0x100) by (bit_vector);
        }
        self.write(addr, (value & 0xFF) as u8);
        self.write(if addr == 0xFFFF { 0 } else { addr + 1 }, (value >> 8) as u8);
    }

    /// The shared flag update invoked by every instruction that produces a
    /// result byte: Zero tracks whether `value` is zero, Negative tracks
    /// bit 7 of `value`, and no other flag moves.
    pub fn update_negative_and_zero_bits(&mut self, value: u8)
        ensures
            final(self)@ == (CpuView {
                status: spec_update_nz(old(self)@.status, value),
                ..old(self)@
            }),
            crate::cpu_status::has_flags(final(self)@.status, CpuStatus::ZERO) <==> value == 0,
            crate::cpu_status::has_flags(final(self)@.status, CpuStatus::NEGATIVE) <==> value
                >= 0x80,
    {
        if value == 0 {
            self.status.set(CpuStatus::ZERO);
        } else {
            self.status.clear(CpuStatus::ZERO);
        }

        if value & 0x80 != 0 {
            self.status.set(CpuStatus::NEGATIVE);
        } else {
            self.status.clear(CpuStatus::NEGATIVE);
        }
        proof {
            lemma_update_nz(old(self)@.status, value);
        }
    }

    /// Fetches the byte at PC and advances PC by one, wrapping at the top
    /// of the address space.
    pub fn fetch_next_pc(&mut self) -> (r: u8)
        requires
            old(self).wf(),
        ensures
            final(self).wf(),
            final(self)@ == (CpuView { pc: wrap_inc(old(self)@.pc), ..old(self)@ }),
            r == old(self)@.memory[old(self)@.pc as int],
    {
        let next_instruction: u16 = self.pc;
        self.pc = if next_instruction == 0xFFFF {
            0
        } else {
            next_instruction + 1
        };
        self.read(next_instruction)
    }

    /// Resolves an addressing mode against the current PC and registers:
    /// returns the effective address the instruction operates on and
    /// advances PC by exactly the operand width the mode consumes.
    /// Zero-page indexed modes never leave the zero page: the index is
    /// added with 8-bit wraparound, a documented quirk of the processor
    /// that is preserved here, not repaired.
    pub fn get_addressing_operator(&mut self, mode: AddressingMode) -> (addr: u16)
        requires
            old(self).wf(),
            mode_supported(mode),
        ensures
            final(self).wf(),
            addr == spec_operand_addr(old(self)@, mode),
            final(self)@ == (CpuView { pc: spec_operand_pc(old(self)@, mode), ..old(self)@ }),
            (mode matches AddressingMode::ZeroPage || mode matches AddressingMode::ZeroPageX
                || mode matches AddressingMode::ZeroPageY) ==> addr <= 0xFF,
    {
        match mode {
            AddressingMode::ZeroPage => self.fetch_next_pc() as u16,
            AddressingMode::ZeroPageX => self.fetch_next_pc().wrapping_add(self.x) as u16,
            AddressingMode::ZeroPageY => self.fetch_next_pc().wrapping_add(self.y) as u16,
            AddressingMode::Immediate => {
                let address: u16 = self.pc;
                self.pc = if address == 0xFFFF {
                    0
                } else {
                    address + 1
                };
                address
            },
            AddressingMode::Absolute => {
                let address: u16 = self.mem_read_u16(self.pc);
                self.advance_pc_twice();
                address
            },
            AddressingMode::AbsoluteX => {
                let address: u16 = self.mem_read_u16(self.pc).wrapping_add(self.x as u16);
                self.advance_pc_twice();
                address
            },
            AddressingMode::AbsoluteY => {
                let address: u16 = self.mem_read_u16(self.pc).wrapping_add(self.y as u16);
                self.advance_pc_twice();
                address
            },
            _ => vstd::pervasive::unreached(),
        }
    }

    /// Advances PC past a two-byte operand, wrapping at the top of the
    /// address space.
    fn advance_pc_twice(&mut self)
        ensures
            final(self)@ == (CpuView { pc: wrap_inc(wrap_inc(old(self)@.pc)), ..old(self)@ }),
    {
        self.pc = if self.pc == 0xFFFF {
            0
        } else {
            self.pc + 1
        };
        self.pc = if self.pc == 0xFFFF {
            0
        } else {
            self.pc + 1
        };
    }

    /// Copies the program into memory starting at the load base and writes
    /// the load base address into the reset vector. A program longer than
    /// the space above the load base is a caller error, ruled out by the
    /// precondition.
    pub fn load(&mut self, program: Vec<u8>)
        requires
            old(self).wf(),
            program@.len() <= MEMORY_SIZE - LOAD_BASE,
        ensures
            final(self).wf(),
            final(self)@ == (CpuView {
                memory: spec_load(old(self)@.memory, program@),
                ..old(self)@
            }),
    {
        let ghost orig = self@;
        let mut i: usize = 0;
        proof {
            assert(spec_copy_into(orig.memory, LOAD_BASE as int, program@.take(0)) =~= orig.memory);
        }
        while i < program.len()
            invariant
                self.wf(),
                i <= program@.len(),
                program@.len() <= MEMORY_SIZE - LOAD_BASE,
                self@ == (CpuView {
                    memory: spec_copy_into(orig.memory, LOAD_BASE as int, program@.take(i as int)),
                    ..orig
                }),
                orig.memory.len() == MEMORY_SIZE,
            decreases program@.len() - i,
        {
            self.write(LOAD_BASE + (i as u16), program[i]);
            i += 1;
            proof {
                assert(self@.memory =~= spec_copy_into(orig.memory, LOAD_BASE as int,
                    program@.take(i as int)));
            }
        }
        proof {
            assert(program@.take(i as int) =~= program@);
        }
        self.mem_write_u16(RESET_VECTOR, LOAD_BASE);
    }

    /// LDA: resolves the operand address, loads the byte there into the
    /// accumulator, and runs the shared Zero/Negative flag update on it.
    fn lda(&mut self, mode: AddressingMode)
        requires
            old(self).wf(),
            mode_supported(mode),
        ensures
            final(self).wf(),
            final(self)@ == spec_lda(old(self)@, mode),
    {
        let operator: u16 = self.get_addressing_operator(mode);
        let value: u8 = self.read(operator);
        self.a = value;
        self.update_negative_and_zero_bits(value)
    }

    /// TAX: copies the accumulator into X and runs the shared
    /// Zero/Negative flag update on the copied byte.
    fn tax(&mut self)
        ensures
            final(self)@ == spec_tax(old(self)@),
    {
        self.x = self.a;
        self.update_negative_and_zero_bits(self.x);
    }

    /// One fetch-decode-execute step: fetches the opcode at PC, advances
    /// PC past it, dispatches to the instruction's semantics, and reports
    /// whether the machine is still running. BRK (0x00) halts; an opcode
    /// the table does not implement stops the machine with a diagnostic
    /// outcome instead of executing anything.
    pub fn step(&mut self) -> (outcome: StepOutcome)
        requires
            old(self).wf(),
        ensures
            final(self).wf(),
            final(self)@ == spec_step_state(old(self)@),
            outcome == spec_step_outcome(old(self)@),
    {
        let opcode: u8 = self.fetch_next_pc();
        match opcode {
            0xA9 => {
                self.lda(AddressingMode::Immediate);
                StepOutcome::Running
            },
            0xA5 => {
                self.lda(AddressingMode::ZeroPage);
                StepOutcome::Running
            },
            0xB5 => {
                self.lda(AddressingMode::ZeroPageX);
                StepOutcome::Running
            },
            0xAD => {
                self.lda(AddressingMode::Absolute);
                StepOutcome::Running
            },
            0xBD => {
                self.lda(AddressingMode::AbsoluteX);
                StepOutcome::Running
            },
            0xB9 => {
                self.lda(AddressingMode::AbsoluteY);
                StepOutcome::Running
            },
            0xAA => {
                self.tax();
                StepOutcome::Running
            },
            0x00 => StepOutcome::Halted,
            _ => StepOutcome::UnknownOpcode,
        }
    }

    /// Runs the fetch-decode-execute loop until the machine halts on BRK,
    /// stops on an unimplemented opcode, or the step budget is spent.
    /// Spending the budget is harmless: it exceeds the number of distinct
    /// program-counter values, and the contract proves (via
    /// `lemma_never_stops`) that a Running outcome means the machine
    /// would never stop however long it ran. An embedding that wants its
    /// own budget should call `step` itself.
    pub fn interpret(&mut self) -> (outcome: StepOutcome)
        requires
            old(self).wf(),
        ensures
            final(self).wf(),
            spec_interpret_post(old(self)@, final(self)@, outcome, RUN_STEP_LIMIT as nat),
            final(self)@.memory == old(self)@.memory,
            outcome == StepOutcome::Running ==> forall|k: nat|
                spec_running(#[trigger] spec_run(old(self)@, k)),
    {
        let ghost s0 = self@;
        let mut outcome = StepOutcome::Running;
        let mut steps: u64 = 0;
        while outcome == StepOutcome::Running && steps < RUN_STEP_LIMIT
            invariant
                self.wf(),
                steps <= RUN_STEP_LIMIT,
                self@ == spec_run(s0, steps as nat),
                forall|k: nat| k + 1 < steps as nat ==> spec_running(#[trigger] spec_run(s0, k)),
                outcome == StepOutcome::Running ==> (steps == 0 || spec_running(
                    spec_run(s0, (steps - 1) as nat),
                )),
                outcome != StepOutcome::Running ==> steps >= 1 && outcome == spec_step_outcome(
                    spec_run(s0, (steps - 1) as nat),
                ),
            decreases RUN_STEP_LIMIT - steps,
        {
            let o = self.step();
            proof {
                lemma_run_unfold_back(s0, steps as nat);
            }
            steps = steps + 1;
            outcome = o;
        }
        proof {
            lemma_run_memory_unchanged(s0, steps as nat);
            if outcome == StepOutcome::Running {
                assert forall|m: nat| m <= MEMORY_SIZE implies spec_running(
                    #[trigger] spec_run(s0, m),
                ) by {
                    assert(m + 1 < steps as nat);
                }
                lemma_never_stops(s0);
            }
        }
        outcome
    }

    /// The one-shot entry point: loads the program, resets, and runs the
    /// fetch-decode-execute loop to its stopping point.
    pub fn load_and_run(&mut self, program: Vec<u8>) -> (outcome: StepOutcome)
        requires
            old(self).wf(),
            program@.len() <= MEMORY_SIZE - LOAD_BASE,
        ensures
            final(self).wf(),
            spec_interpret_post(
                spec_loaded_start(old(self)@, program@),
                final(self)@,
                outcome,
                RUN_STEP_LIMIT as nat,
            ),
            final(self)@.memory == spec_load(old(self)@.memory, program@),
            outcome == StepOutcome::Running ==> forall|k: nat|
                spec_running(#[trigger] spec_run(spec_loaded_start(old(self)@, program@), k)),
    {
        self.load(program);
        self.reset();
        self.interpret()
    }

    /// Reloads PC from the reset vector, restores the power-on register
    /// state, and clears every status flag. Memory is untouched.
    pub fn reset(&mut self)
        requires
            old(self).wf(),
        ensures
            final(self).wf(),
            final(self)@ == spec_reset(old(self)@),
    {
        self.pc = self.mem_read_u16(RESET_VECTOR);
        self.a = 0;
        self.x = 0;
        self.y = 0;
        self.sp = 0xFD;
        self.status.clear(0xFF);
        proof {
            let s = old(self)@.status;
            assert(s & !0xFFu8 == 0) by (bit_vector);
        }
    }
}

} // verus!
