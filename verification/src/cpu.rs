//! The execution engine: a bidirectional fetch-advance-execute cycle over a
//! sixteen-register file, two flat 65536-word memories, a branch register
//! and a direction flag.
//!
//! Register 15 is the stack pointer by convention, initialized to 0xFFFF and
//! growing downward.  All arithmetic and addressing wraps modulo 2^16 and
//! never faults; the only fatal faults are a fetched word that no opcode
//! claims and a gate-distinctness violation that survived to run time.
//!
//! The reserved `GoTo` and `ComeFrom` transfers are executed as no-ops: a
//! no-op is trivially reversible, and this crate documents that choice here.

use vstd::prelude::*;

use crate::codec::decode;
use crate::codec::decode_spec;
use crate::codec::word_of_bytes;
use crate::isa::Op;
use crate::isa::ranges_ok;
use vstd::wrapping::u16_specs;

verus! {

/// The reason a run stopped abnormally.
#[derive(Clone, Copy, Debug, PartialEq, Eq, Structural)]
pub enum Fault {
    /// The fetched word is a bit pattern that no opcode claims.
    IllegalWord,
    /// A reversible gate reached execution with its target register equal
    /// to a control register.
    AliasedGate,
}

/// Whether the machine is still stepping.
#[derive(Clone, Copy, Debug, PartialEq, Eq, Structural)]
pub enum Status {
    Running,
    Halted,
    Faulted(Fault),
}

/// The mathematical state of the machine: what a `Cpu` denotes.
#[verifier::ext_equal]
pub struct Machine {
    pub regs: Seq<u16>,
    pub data: Seq<u16>,
    pub prog: Seq<u16>,
    pub pc: u16,
    pub br: u16,
    pub fwd: bool,
    pub status: Status,
}

/// The fixed shape of a machine: sixteen registers and two 65536-word
/// memories.
pub open spec fn m_wf(m: Machine) -> bool {
    &&& m.regs.len() == 16
    &&& m.data.len() == 0x10000
    &&& m.prog.len() == 0x10000
}

/// The machine at startup: registers zero except the stack pointer at
/// 0xFFFF, both memories zero except program memory pre-loaded with the
/// decoded object, running forward from address zero.
pub open spec fn init_spec(prog: Seq<u16>) -> Machine {
    Machine {
        regs: Seq::new(16, |i: int| if i == 15 { 0xFFFFu16 } else { 0u16 }),
        data: Seq::new(0x10000, |i: int| 0u16),
        prog: Seq::new(0x10000, |i: int| if i < prog.len() { prog[i] } else { 0u16 }),
        pc: 0,
        br: 0,
        fwd: true,
        status: Status::Running,
    }
}

/// A register rotated left by one bit.
pub open spec fn rotl1(x: u16) -> u16 {
    (x << 1) | (x >> 15)
}

/// A register rotated right by one bit.
pub open spec fn rotr1(x: u16) -> u16 {
    (x >> 1) | (x << 15)
}

/// The program counter after the advance phase: forward or backward by the
/// branch register (by one while it is exactly zero), wrapping.
pub open spec fn advanced_pc(m: Machine) -> u16 {
    let step = if m.br == 0 { 1u16 } else { m.br };
    if m.fwd {
        u16_specs::wrapping_add(m.pc, step)
    } else {
        u16_specs::wrapping_sub(m.pc, step)
    }
}

/// The effect of one executed instruction on an (already advanced) machine.
pub open spec fn apply_op(m: Machine, op: Op) -> Machine {
    match op {
        Op::Halt => Machine { status: Status::Halted, ..m },
        Op::Not(r) => Machine { regs: m.regs.update(r as int, !m.regs[r as int]), ..m },
        Op::RotateLeft(r) => Machine { regs: m.regs.update(r as int, rotl1(m.regs[r as int])), ..m },
        Op::RotateRight(r) => Machine { regs: m.regs.update(r as int, rotr1(m.regs[r as int])), ..m },
        Op::Increment(r) => Machine {
            regs: m.regs.update(r as int, u16_specs::wrapping_add(m.regs[r as int], 1)),
            ..m
        },
        Op::Decrement(r) => Machine {
            regs: m.regs.update(r as int, u16_specs::wrapping_sub(m.regs[r as int], 1)),
            ..m
        },
        Op::Push(r) => {
            let sp = u16_specs::wrapping_sub(m.regs[15], 1);
            Machine {
                regs: m.regs.update(r as int, m.data[sp as int]).update(15, sp),
                data: m.data.update(sp as int, m.regs[r as int]),
                ..m
            }
        },
        Op::Pop(r) => {
            let sp = m.regs[15];
            Machine {
                regs: m.regs.update(r as int, m.data[sp as int]).update(
                    15,
                    u16_specs::wrapping_add(sp, 1),
                ),
                data: m.data.update(sp as int, m.regs[r as int]),
                ..m
            }
        },
        Op::SwapBr(r) => Machine {
            br: m.regs[r as int],
            regs: m.regs.update(r as int, m.br),
            ..m
        },
        Op::RevSwapBr(r) => Machine {
            br: m.regs[r as int],
            regs: m.regs.update(r as int, m.br),
            fwd: !m.fwd,
            ..m
        },
        Op::Swap(a, b) => Machine {
            regs: m.regs.update(a as int, m.regs[b as int]).update(b as int, m.regs[a as int]),
            ..m
        },
        Op::CNot(c, t) => Machine {
            regs: m.regs.update(t as int, m.regs[t as int] ^ m.regs[c as int]),
            ..m
        },
        Op::CAdd(c, t) => Machine {
            regs: m.regs.update(
                t as int,
                u16_specs::wrapping_add(m.regs[t as int], m.regs[c as int]),
            ),
            ..m
        },
        Op::CSub(c, t) => Machine {
            regs: m.regs.update(
                t as int,
                u16_specs::wrapping_sub(m.regs[t as int], m.regs[c as int]),
            ),
            ..m
        },
        Op::Exchange(r, a) => Machine {
            regs: m.regs.update(r as int, m.data[a as int]),
            data: m.data.update(a as int, m.regs[r as int]),
            ..m
        },
        Op::Immediate(r, v) => Machine {
            regs: m.regs.update(r as int, m.regs[r as int] ^ (v as u16)),
            ..m
        },
        Op::CCNot(a, b, t) => {
            if t != a && t != b {
                Machine {
                    regs: m.regs.update(
                        t as int,
                        m.regs[t as int] ^ (m.regs[a as int] & m.regs[b as int]),
                    ),
                    ..m
                }
            } else {
                Machine { status: Status::Faulted(Fault::AliasedGate), ..m }
            }
        },
        Op::CSwap(c, x, y) => {
            if c != x && c != y {
                let s = (m.regs[x as int] ^ m.regs[y as int]) & m.regs[c as int];
                Machine {
                    regs: m.regs.update(x as int, m.regs[x as int] ^ s).update(
                        y as int,
                        m.regs[y as int] ^ s,
                    ),
                    ..m
                }
            } else {
                Machine { status: Status::Faulted(Fault::AliasedGate), ..m }
            }
        },
        Op::Branch(o) => Machine { br: u16_specs::wrapping_add(m.br, o as u16), ..m },
        Op::BrGEZ(r, o) => {
            if m.regs[r as int] < 0x8000 {
                Machine { br: u16_specs::wrapping_add(m.br, o as u16), ..m }
            } else {
                m
            }
        },
        Op::BrLZ(r, o) => {
            if m.regs[r as int] >= 0x8000 {
                Machine { br: u16_specs::wrapping_add(m.br, o as u16), ..m }
            } else {
                m
            }
        },
        Op::BrEven(r, o) => {
            if m.regs[r as int] % 2 == 0 {
                Machine { br: u16_specs::wrapping_add(m.br, o as u16), ..m }
            } else {
                m
            }
        },
        Op::BrOdd(r, o) => {
            if m.regs[r as int] % 2 != 0 {
                Machine { br: u16_specs::wrapping_add(m.br, o as u16), ..m }
            } else {
                m
            }
        },
        Op::GoTo(_) => m,
        Op::ComeFrom(_) => m,
    }
}

/// One whole cycle: fetch the word at the program counter, advance the
/// program counter, then execute.  The advance happens before the executed
/// instruction's own effects, so a mutation of the branch register affects
/// only the next cycle.  A machine that is not running is left unchanged.
pub open spec fn step_spec(m: Machine) -> Machine {
    if m.status != Status::Running {
        m
    } else {
        let ir = m.prog[m.pc as int];
        let m1 = Machine { pc: advanced_pc(m), ..m };
        match decode_spec(ir) {
            None => Machine { status: Status::Faulted(Fault::IllegalWord), ..m1 },
            Some(op) => apply_op(m1, op),
        }
    }
}

/// The machine after `n` cycles.
pub open spec fn run_n(m: Machine, n: nat) -> Machine
    decreases n,
{
    if n == 0 {
        m
    } else {
        step_spec(run_n(m, (n - 1) as nat))
    }
}

/// The executable machine.  Its fields denote the `Machine` given by `view`.
pub struct Cpu {
    pub regs: Vec<u16>,
    pub data_mem: Vec<u16>,
    pub prog_mem: Vec<u16>,
    pub pc: u16,
    pub br: u16,
    pub fwd: bool,
    pub status: Status,
}

impl View for Cpu {
    type V = Machine;

    open spec fn view(&self) -> Machine {
        Machine {
            regs: self.regs@,
            data: self.data_mem@,
            prog: self.prog_mem@,
            pc: self.pc,
            br: self.br,
            fwd: self.fwd,
            status: self.status,
        }
    }
}

impl Cpu {
    /// The machine has its fixed shape.
    pub open spec fn wf(&self) -> bool {
        m_wf(self@)
    }

    /// A fresh machine, pre-loaded with a decoded program of at most 65536
    /// words.
    pub fn new(program: &Vec<u16>) -> (cpu: Cpu)
        requires
            program@.len() <= 0x10000,
        ensures
            cpu.wf(),
            cpu@ == init_spec(program@),
    {
        let mut regs: Vec<u16> = Vec::new();
        while regs.len() < 15
            invariant
                regs@.len() <= 15,
                forall|j: int| 0 <= j < regs@.len() ==> regs@[j] == 0u16,
            decreases 15 - regs.len(),
        {
            regs.push(0);
        }
        regs.push(0xFFFF);
        let mut data_mem: Vec<u16> = Vec::new();
        while data_mem.len() < 0x10000
            invariant
                data_mem@.len() <= 0x10000,
                forall|j: int| 0 <= j < data_mem@.len() ==> data_mem@[j] == 0u16,
            decreases 0x10000 - data_mem.len(),
        {
            data_mem.push(0);
        }
        let mut prog_mem: Vec<u16> = Vec::new();
        let mut i: usize = 0;
        while i < program.len()
            invariant
                i <= program@.len() <= 0x10000,
                prog_mem@.len() == i,
                forall|j: int| 0 <= j < i ==> prog_mem@[j] == program@[j],
            decreases program@.len() - i,
        {
            prog_mem.push(program[i]);
            i = i + 1;
        }
        while prog_mem.len() < 0x10000
            invariant
                program@.len() <= prog_mem@.len() <= 0x10000,
                forall|j: int| 0 <= j < program@.len() ==> prog_mem@[j] == program@[j],
                forall|j: int| program@.len() <= j < prog_mem@.len() ==> prog_mem@[j] == 0u16,
            decreases 0x10000 - prog_mem.len(),
        {
            prog_mem.push(0);
        }
        let cpu = Cpu { regs, data_mem, prog_mem, pc: 0, br: 0, fwd: true, status: Status::Running };
        proof {
            assert(cpu@.regs =~= init_spec(program@).regs);
            assert(cpu@.data =~= init_spec(program@).data);
            assert(cpu@.prog =~= init_spec(program@).prog);
            assert(cpu@ =~= init_spec(program@));
        }
        cpu
    }

    /// Execute one instruction: the effect of `op` on the machine, exactly
    /// as `apply_op` states it.
    fn apply(&mut self, op: Op)
        requires
            old(self).wf(),
            ranges_ok(op),
        ensures
            final(self).wf(),
            final(self)@ == apply_op(old(self)@, op),
    {
        match op {
            Op::Halt => {
                self.status = Status::Halted;
            },
            Op::Not(r) => {
                let x = self.regs[r as usize];
                self.regs.set(r as usize, !x);
            },
            Op::RotateLeft(r) => {
                let x = self.regs[r as usize];
                self.regs.set(r as usize, (x << 1) | (x >> 15));
            },
            Op::RotateRight(r) => {
                let x = self.regs[r as usize];
                self.regs.set(r as usize, (x >> 1) | (x << 15));
            },
            Op::Increment(r) => {
                let x = self.regs[r as usize];
                self.regs.set(r as usize, x.wrapping_add(1));
            },
            Op::Decrement(r) => {
                let x = self.regs[r as usize];
                self.regs.set(r as usize, x.wrapping_sub(1));
            },
            Op::Push(r) => {
                let sp = self.regs[15].wrapping_sub(1);
                let tmp = self.regs[r as usize];
                let slot = self.data_mem[sp as usize];
                self.regs.set(r as usize, slot);
                self.data_mem.set(sp as usize, tmp);
                self.regs.set(15, sp);
            },
            Op::Pop(r) => {
                let sp = self.regs[15];
                let tmp = self.regs[r as usize];
                let slot = self.data_mem[sp as usize];
                self.regs.set(r as usize, slot);
                self.data_mem.set(sp as usize, tmp);
                self.regs.set(15, sp.wrapping_add(1));
            },
            Op::SwapBr(r) => {
                let tmp = self.br;
                self.br = self.regs[r as usize];
                self.regs.set(r as usize, tmp);
            },
            Op::RevSwapBr(r) => {
                let tmp = self.br;
                self.br = self.regs[r as usize];
                self.regs.set(r as usize, tmp);
                self.fwd = !self.fwd;
            },
            Op::Swap(a, b) => {
                let va = self.regs[a as usize];
                let vb = self.regs[b as usize];
                self.regs.set(a as usize, vb);
                self.regs.set(b as usize, va);
            },
            Op::CNot(c, t) => {
                let vt = self.regs[t as usize];
                let vc = self.regs[c as usize];
                self.regs.set(t as usize, vt ^ vc);
            },
            Op::CAdd(c, t) => {
                let vt = self.regs[t as usize];
                let vc = self.regs[c as usize];
                self.regs.set(t as usize, vt.wrapping_add(vc));
            },
            Op::CSub(c, t) => {
                let vt = self.regs[t as usize];
                let vc = self.regs[c as usize];
                self.regs.set(t as usize, vt.wrapping_sub(vc));
            },
            Op::Exchange(r, a) => {
                let tmp = self.regs[r as usize];
                let slot = self.data_mem[a as usize];
                self.regs.set(r as usize, slot);
                self.data_mem.set(a as usize, tmp);
            },
            Op::Immediate(r, v) => {
                let x = self.regs[r as usize];
                self.regs.set(r as usize, x ^ (v as u16));
            },
            Op::CCNot(a, b, t) => {
                if t != a && t != b {
                    let vt = self.regs[t as usize];
                    let va = self.regs[a as usize];
                    let vb = self.regs[b as usize];
                    self.regs.set(t as usize, vt ^ (va & vb));
                } else {
                    self.status = Status::Faulted(Fault::AliasedGate);
                }
            },
            Op::CSwap(c, x, y) => {
                if c != x && c != y {
                    let vx = self.regs[x as usize];
                    let vy = self.regs[y as usize];
                    let vc = self.regs[c as usize];
                    let s = (vx ^ vy) & vc;
                    self.regs.set(x as usize, vx ^ s);
                    self.regs.set(y as usize, vy ^ s);
                } else {
                    self.status = Status::Faulted(Fault::AliasedGate);
                }
            },
            Op::Branch(o) => {
                self.br = self.br.wrapping_add(o as u16);
            },
            Op::BrGEZ(r, o) => {
                if self.regs[r as usize] < 0x8000 {
                    self.br = self.br.wrapping_add(o as u16);
                }
            },
            Op::BrLZ(r, o) => {
                if self.regs[r as usize] >= 0x8000 {
                    self.br = self.br.wrapping_add(o as u16);
                }
            },
            Op::BrEven(r, o) => {
                if self.regs[r as usize] % 2 == 0 {
                    self.br = self.br.wrapping_add(o as u16);
                }
            },
            Op::BrOdd(r, o) => {
                if self.regs[r as usize] % 2 != 0 {
                    self.br = self.br.wrapping_add(o as u16);
                }
            },
            Op::GoTo(_) => {},
            Op::ComeFrom(_) => {},
        }
        proof {
            assert(self@ =~= apply_op(old(self)@, op));
        }
    }

    /// One fetch-advance-execute cycle, exactly as `step_spec` states it.
    /// A machine that has halted or faulted is left unchanged.
    pub fn step(&mut self)
        requires
            old(self).wf(),
        ensures
            final(self).wf(),
            final(self)@ == step_spec(old(self)@),
    {
        if self.status != Status::Running {
            return ;
        }
        let ir = self.prog_mem[self.pc as usize];
        let stepsz: u16 = if self.br == 0 {
            1
        } else {
            self.br
        };
        self.pc = if self.fwd {
            self.pc.wrapping_add(stepsz)
        } else {
            self.pc.wrapping_sub(stepsz)
        };
        match decode(ir) {
            None => {
                self.status = Status::Faulted(Fault::IllegalWord);
            },
            Some(op) => {
                self.apply(op);
            },
        }
        proof {
            assert(self@ =~= step_spec(old(self)@));
        }
    }

    /// Step the machine until it halts or faults, or for `fuel` cycles,
    /// whichever comes first.  Returns the number of cycles taken: the
    /// machine ends exactly `n` cycles after its starting state, having run
    /// the whole way there.
    pub fn run(&mut self, fuel: usize) -> (n: usize)
        requires
            old(self).wf(),
        ensures
            final(self).wf(),
            n <= fuel,
            final(self)@ == run_n(old(self)@, n as nat),
            forall|k: nat| k < n ==> run_n(old(self)@, k).status == Status::Running,
            n < fuel ==> final(self)@.status != Status::Running,
    {
        let mut n: usize = 0;
        while n < fuel && self.status == Status::Running
            invariant
                self.wf(),
                n <= fuel,
                self@ == run_n(old(self)@, n as nat),
                forall|k: nat| k < n ==> run_n(old(self)@, k).status == Status::Running,
            decreases fuel - n,
        {
            self.step();
            n = n + 1;
        }
        n
    }
}

/// An object file image turned into program words, or the structural fault
/// it shows: an odd trailing byte, or more words than program memory holds.
#[derive(Clone, Copy, Debug, PartialEq, Eq, Structural)]
pub enum LoadError {
    OddLength,
    TooBig,
}

/// The words of an even-length byte sequence, most-significant byte first.
pub open spec fn words_of_bytes(b: Seq<u8>) -> Seq<u16> {
    Seq::new(b.len() / 2, |i: int| word_of_bytes(b[2 * i], b[2 * i + 1]))
}

/// Decode an object image into program words; the only rejected inputs are
/// the two structurally malformed shapes.
pub fn load_object(bytes: &Vec<u8>) -> (r: Result<Vec<u16>, LoadError>)
    ensures
        bytes@.len() % 2 != 0 ==> r == Result::<Vec<u16>, LoadError>::Err(LoadError::OddLength),
        bytes@.len() % 2 == 0 && bytes@.len() / 2 > 0x10000 ==> r == Result::<
            Vec<u16>,
            LoadError,
        >::Err(LoadError::TooBig),
        bytes@.len() % 2 == 0 && bytes@.len() / 2 <= 0x10000 ==> (r matches Ok(ws) && ws@
            == words_of_bytes(bytes@)),
{
    let len = bytes.len();
    if len % 2 != 0 {
        return Err(LoadError::OddLength);
    }
    if len / 2 > 0x10000 {
        return Err(LoadError::TooBig);
    }
    let mut words: Vec<u16> = Vec::new();
    let mut i: usize = 0;
    while i < len / 2
        invariant
            len == bytes@.len(),
            len % 2 == 0,
            i <= len / 2 <= 0x10000,
            words@.len() == i,
            forall|j: int| 0 <= j < i ==> words@[j] == word_of_bytes(
                bytes@[2 * j],
                bytes@[2 * j + 1],
            ),
        decreases len / 2 - i,
    {
        let hi = bytes[2 * i];
        let lo = bytes[2 * i + 1];
        words.push(((hi as u16) << 8) | (lo as u16));
        i = i + 1;
    }
    proof {
        assert(words@ =~= words_of_bytes(bytes@));
    }
    Ok(words)
}

/// The computing heart of a whole machine invocation: load an object image
/// and run the machine it describes until it halts or faults, or for `fuel`
/// cycles at most.  The errors are exactly the two structurally malformed
/// image shapes.
pub fn vm(bytes: &Vec<u8>, fuel: usize) -> (r: Result<Cpu, LoadError>)
    ensures
        bytes@.len() % 2 != 0 ==> r == Result::<Cpu, LoadError>::Err(LoadError::OddLength),
        bytes@.len() % 2 == 0 && bytes@.len() / 2 > 0x10000 ==> r == Result::<
            Cpu,
            LoadError,
        >::Err(LoadError::TooBig),
        bytes@.len() % 2 == 0 && bytes@.len() / 2 <= 0x10000 ==> (r matches Ok(cpu) && cpu.wf()
            && exists|n: nat|
            {
                &&& n <= fuel
                &&& cpu@ == run_n(init_spec(words_of_bytes(bytes@)), n)
                &&& forall|k: nat|
                    k < n ==> run_n(init_spec(words_of_bytes(bytes@)), k).status == Status::Running
                &&& n < fuel ==> cpu@.status != Status::Running
            }),
{
    let words = match load_object(bytes) {
        Ok(w) => w,
        Err(e) => {
            return Err(e);
        },
    };
    let mut cpu = Cpu::new(&words);
    let n = cpu.run(fuel);
    proof {
        assert(cpu@ == run_n(init_spec(words_of_bytes(bytes@)), n as nat));
    }
    Ok(cpu)
}

/// The xor load is self-inverse: executing the same `Immediate` twice
/// restores every register.
pub proof fn lemma_immediate_self_inverse(m: Machine, r: u8, v: u8)
    requires
        m_wf(m),
        r < 16,
    ensures
        apply_op(apply_op(m, Op::Immediate(r, v)), Op::Immediate(r, v)).regs == m.regs,
{
    let x = m.regs[r as int];
    assert((x ^ (v as u16)) ^ (v as u16) == x) by (bit_vector);
    assert(apply_op(apply_op(m, Op::Immediate(r, v)), Op::Immediate(r, v)).regs =~= m.regs);
}

/// A push followed by a pop of the same register, with nothing else
/// touching the stack pointer, restores the machine entirely: the stack
/// pointer returns to its original value, and because both operations
/// exchange rather than copy, the register and the stack slot also end
/// holding exactly what they held before.
pub proof fn lemma_push_pop(m: Machine, r: u8)
    requires
        m_wf(m),
        r < 16,
        r != 15,
    ensures
        apply_op(apply_op(m, Op::Push(r)), Op::Pop(r)).regs == m.regs,
        apply_op(apply_op(m, Op::Push(r)), Op::Pop(r)).data == m.data,
        apply_op(apply_op(m, Op::Push(r)), Op::Pop(r)) == m,
{
    let sp = u16_specs::wrapping_sub(m.regs[15], 1);
    let m1 = apply_op(m, Op::Push(r));
    assert(m1.regs[15] == sp);
    assert(u16_specs::wrapping_add(sp, 1) == m.regs[15]);
    let m2 = apply_op(m1, Op::Pop(r));
    assert(m2.regs =~= m.regs);
    assert(m2.data =~= m.data);
    assert(m2 =~= m);
}

/// The stack never faults: a push past address zero and a pop past 0xFFFF
/// wrap the stack pointer modulo 65536 and leave the machine running as
/// before.
pub proof fn lemma_stack_wraps(m: Machine, r: u8)
    requires
        m_wf(m),
        r < 16,
    ensures
        apply_op(m, Op::Push(r)).status == m.status,
        apply_op(m, Op::Pop(r)).status == m.status,
        apply_op(m, Op::Push(r)).regs[15] == ((m.regs[15] as int - 1) % 0x10000) as u16,
        r != 15 ==> apply_op(m, Op::Pop(r)).regs[15] == ((m.regs[15] as int + 1) % 0x10000) as u16,
{
}

/// The Toffoli gate is an involution: applied twice with a target distinct
/// from both controls, every register is restored, whatever the control
/// values are.
pub proof fn lemma_toffoli_involution(m: Machine, a: u8, b: u8, t: u8)
    requires
        m_wf(m),
        a < 16,
        b < 16,
        t < 16,
        t != a,
        t != b,
    ensures
        apply_op(apply_op(m, Op::CCNot(a, b, t)), Op::CCNot(a, b, t)).regs == m.regs,
{
    let x = m.regs[t as int];
    let s = m.regs[a as int] & m.regs[b as int];
    assert((x ^ s) ^ s == x) by (bit_vector);
    assert(apply_op(apply_op(m, Op::CCNot(a, b, t)), Op::CCNot(a, b, t)).regs =~= m.regs);
}

/// The Fredkin gate under an all-zero control changes nothing.
pub proof fn lemma_fredkin_zero_control(m: Machine, c: u8, x: u8, y: u8)
    requires
        m_wf(m),
        c < 16,
        x < 16,
        y < 16,
        c != x,
        c != y,
        m.regs[c as int] == 0,
    ensures
        apply_op(m, Op::CSwap(c, x, y)).regs == m.regs,
{
    let vx = m.regs[x as int];
    let vy = m.regs[y as int];
    assert((vx ^ vy) & 0 == 0 && vx ^ 0 == vx && vy ^ 0 == vy) by (bit_vector);
    assert(apply_op(m, Op::CSwap(c, x, y)).regs =~= m.regs);
}

/// The Fredkin gate under an all-ones control swaps its two targets
/// entirely.
pub proof fn lemma_fredkin_full_control(m: Machine, c: u8, x: u8, y: u8)
    requires
        m_wf(m),
        c < 16,
        x < 16,
        y < 16,
        c != x,
        c != y,
        m.regs[c as int] == 0xFFFF,
    ensures
        apply_op(m, Op::CSwap(c, x, y)).regs == m.regs.update(x as int, m.regs[y as int]).update(
            y as int,
            m.regs[x as int],
        ),
{
    let vx = m.regs[x as int];
    let vy = m.regs[y as int];
    assert(((vx ^ vy) & 0xFFFF == vx ^ vy) && (vx ^ (vx ^ vy) == vy) && (vy ^ (vx ^ vy) == vx))
        by (bit_vector);
    assert(apply_op(m, Op::CSwap(c, x, y)).regs =~= m.regs.update(x as int, m.regs[y as int])
        .update(y as int, m.regs[x as int]));
}

} // verus!

