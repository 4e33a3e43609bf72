//! The second, much simpler processor: a stack machine that pushes and
//! pops bytes through the shared bus.  Its code store and its stack both
//! live in bus-mapped memory; `tick` fetches one opcode at the code
//! pointer, executes it, and advances.
//!
//! The stack grows upward from `stack_base`; `stack_top` points one past
//! the topmost byte.  Popping below the base or pushing past the top of
//! the address space is reported as a typed [`StackFault`] with the
//! machine state untouched, rather than wrapping the stack pointer; the
//! byte adder and subtractor wrap modulo 256, with no carry tracking yet
//! (the `caez` flag byte is reserved for it).

use vstd::arithmetic::div_mod::lemma_mod_add_multiples_vanish;
use vstd::arithmetic::div_mod::lemma_mod_sub_multiples_vanish;
use vstd::arithmetic::div_mod::lemma_small_mod;
use vstd::prelude::*;

use crate::bus::Bus;
use crate::cpu6502::lemma_wrap16_wadd;
use crate::cpu6502::wrap16;
use crate::device::Addressable;

verus! {

/// Opcode: push the following byte onto the stack.
pub const SPU8: u8 = 0x01;

/// Opcode: pop the top byte off the stack.
pub const SPO8: u8 = 0x02;

/// Opcode: pop two bytes and push their sum.
pub const ADD8: u8 = 0x03;

/// Opcode: pop two bytes and push their difference.
pub const SUB8: u8 = 0x04;

/// Opcode: complement the byte just above the top of the stack in place.
pub const NOT: u8 = 0x05;

/// Opcode: halt the machine.
pub const HALT: u8 = 0xFF;

/// A decoded stack-machine instruction.
enum Instruction {
    SPU8 { data: u8 },
    SPO8,
    ADD8,
    SUB8,
    NOT,
    HALT,
    NOP,
}

/// A stack-machine condition that would wrap the stack pointer: reported
/// to the caller instead, with nothing changed.
#[derive(Debug, Copy, Clone, PartialEq, Eq, Structural)]
pub enum StackFault {
    /// A push with the stack pointer already at the top of the address
    /// space.
    StackOverflow,
    /// A pop (or a two-operand instruction) with too few bytes on the
    /// stack.
    StackUnderflow,
}

/// The stack-machine processor.
#[derive(Debug, Copy, Clone, PartialEq, Eq, Structural)]
pub struct ScottCPU {
    /// Carry/A-larger/Equal/Zero flag byte; reserved, never written yet.
    pub caez: u8,
    /// Whether a HALT instruction has been executed.
    pub halted: bool,
    /// Lowest address of the stack region.
    pub stack_base: u16,
    /// One past the topmost stack byte.
    pub stack_top: u16,
    /// First address of the code store.
    pub code_base: u16,
    /// One past the last address of the code store.
    pub code_base_top: u16,
    /// Address of the next opcode to fetch.
    pub code_pointer: u16,
}

/// A byte value reduced modulo 256.
pub open spec fn wrap8(x: int) -> u8 {
    (x % 0x100) as u8
}

/// The instruction and encoded size a fetched opcode byte decodes to;
/// `operand` is the byte following the opcode (consumed only by `SPU8`).
spec fn spec_make_instruction(opcode: u8, operand: u8) -> (Instruction, u16) {
    if opcode == SPU8 {
        (Instruction::SPU8 { data: operand }, 2)
    } else if opcode == SPO8 {
        (Instruction::SPO8, 1)
    } else if opcode == ADD8 {
        (Instruction::ADD8, 1)
    } else if opcode == SUB8 {
        (Instruction::SUB8, 1)
    } else if opcode == NOT {
        (Instruction::NOT, 1)
    } else if opcode == HALT {
        (Instruction::HALT, 1)
    } else {
        (Instruction::NOP, 1)
    }
}

/// The bus after a two-operand instruction: the popped top cell is
/// cleared, the cell under it holds the pushed result, and every other
/// address reads as before.
pub open spec fn binop_bus_effect<D: Addressable>(
    pre: Bus<D>,
    post: Bus<D>,
    top: u16,
    under: u16,
    result: u8,
) -> bool {
    &&& post.inv()
    &&& forall|b: u16| post.mapped(b) == pre.mapped(b)
    &&& forall|b: u16| b != top && b != under ==> post.read_value(b) == pre.read_value(b)
    &&& pre.mapped(top) ==> post.read_value(top) == 0
    &&& pre.mapped(under) ==> post.read_value(under) == result
}

/// An unsigned 8-bit wrapping add lands on the modularly reduced sum.
proof fn lemma_wrap8_wadd(a: u8, b: u8)
    ensures
        vstd::wrapping::u8_specs::wrapping_add(a, b) == wrap8(a + b),
{
    if a + b > 0xFF {
        lemma_mod_sub_multiples_vanish(a + b, 0x100);
        lemma_small_mod((a + b - 0x100) as nat, 0x100);
    } else {
        lemma_small_mod((a + b) as nat, 0x100);
    }
}

/// An unsigned 8-bit wrapping subtract lands on the modularly reduced
/// difference.
proof fn lemma_wrap8_wsub(a: u8, b: u8)
    ensures
        vstd::wrapping::u8_specs::wrapping_sub(a, b) == wrap8(a - b),
{
    if a - b < 0 {
        lemma_mod_add_multiples_vanish(a - b, 0x100);
        lemma_small_mod((a - b + 0x100) as nat, 0x100);
    } else {
        lemma_small_mod((a - b) as nat, 0x100);
    }
}

impl ScottCPU {
    /// The stack never reaches below its base.
    pub open spec fn inv(&self) -> bool {
        self.stack_base <= self.stack_top
    }

    /// A halted-free machine with an empty stack at `0x0100` and its code
    /// pointer at the start of the given code store.
    pub fn new(code_store_base: u16, code_store_size: u16) -> (r: ScottCPU)
        requires
            code_store_base + code_store_size <= 0xFFFF,
        ensures
            (r == ScottCPU {
                caez: 0u8,
                halted: false,
                stack_base: 0x0100,
                stack_top: 0x0100,
                code_base: code_store_base,
                code_base_top: (code_store_base + code_store_size) as u16,
                code_pointer: code_store_base,
            }),
            r.inv(),
    {
        ScottCPU {
            caez: 0u8,
            halted: false,
            stack_base: 0x0100,
            stack_top: 0x0100,
            code_base: code_store_base,
            code_base_top: code_store_base + code_store_size,
            code_pointer: code_store_base,
        }
    }

    /// Whether a HALT instruction has stopped the machine.
    pub fn is_halted(&self) -> (r: bool)
        ensures
            r == self.halted,
    {
        self.halted
    }

    /// Decode one opcode byte; `SPU8` consumes the following byte as its
    /// operand.
    fn make_instruction<D: Addressable>(&mut self, bus: &Bus<D>, opcode: u8) -> (r: (
        Instruction,
        u16,
    ))
        requires
            bus.inv(),
        ensures
            *final(self) == *old(self),
            r == spec_make_instruction(
                opcode,
                bus.read_value(wrap16(old(self).code_pointer + 1)),
            ),
    {
        proof {
            lemma_wrap16_wadd(self.code_pointer, 1);
        }
        if opcode == SPU8 {
            (Instruction::SPU8 { data: bus.read(self.code_pointer.wrapping_add(1)) }, 2)
        } else if opcode == SPO8 {
            (Instruction::SPO8, 1)
        } else if opcode == ADD8 {
            (Instruction::ADD8, 1)
        } else if opcode == SUB8 {
            (Instruction::SUB8, 1)
        } else if opcode == NOT {
            (Instruction::NOT, 1)
        } else if opcode == HALT {
            (Instruction::HALT, 1)
        } else {
            (Instruction::NOP, 1)
        }
    }

    /// Pop the top byte: read it, clear its cell, and lower the stack
    /// pointer.
    fn pop<D: Addressable>(&mut self, bus: &mut Bus<D>) -> (r: u8)
        requires
            old(bus).inv(),
            old(self).inv(),
            old(self).stack_top > old(self).stack_base,
        ensures
            final(self).inv(),
            final(bus).inv(),
            (*final(self) == ScottCPU { stack_top: (old(self).stack_top - 1) as u16, ..*old(self) }),
            r == old(bus).read_value((old(self).stack_top - 1) as u16),
            Bus::write_effect(
                *old(bus),
                *final(bus),
                (old(self).stack_top - 1) as u16,
                0,
                old(bus).mapped((old(self).stack_top - 1) as u16),
            ),
    {
        self.stack_top = self.stack_top - 1;
        let value: u8 = bus.read(self.stack_top);
        bus.write(self.stack_top, 0);
        value
    }

    /// Push a byte: store it at the stack pointer and raise the pointer.
    fn push<D: Addressable>(&mut self, bus: &mut Bus<D>, data: u8)
        requires
            old(bus).inv(),
            old(self).inv(),
            old(self).stack_top < 0xFFFF,
        ensures
            final(self).inv(),
            final(bus).inv(),
            (*final(self) == ScottCPU { stack_top: (old(self).stack_top + 1) as u16, ..*old(self) }),
            Bus::write_effect(
                *old(bus),
                *final(bus),
                old(self).stack_top,
                data,
                old(bus).mapped(old(self).stack_top),
            ),
    {
        bus.write(self.stack_top, data);
        self.stack_top = self.stack_top + 1;
    }

    /// Run one decoded instruction against the stack; the code pointer is
    /// advanced by the caller.
    fn execute_instruction<D: Addressable>(
        &mut self,
        bus: &mut Bus<D>,
        instruction: &Instruction,
    ) -> (r: Result<(), StackFault>)
        requires
            old(bus).inv(),
            old(self).inv(),
        ensures
            final(self).inv(),
            final(bus).inv(),
            ({
                let cpu0 = *old(self);
                let st = cpu0.stack_top;
                match *instruction {
                    Instruction::SPU8 { data } => if st < 0xFFFF {
                        &&& r == Ok::<(), StackFault>(())
                        &&& (*final(self) == ScottCPU { stack_top: (st + 1) as u16, ..cpu0 })
                        &&& Bus::write_effect(
                            *old(bus),
                            *final(bus),
                            st,
                            data,
                            old(bus).mapped(st),
                        )
                    } else {
                        &&& r == Err::<(), StackFault>(StackFault::StackOverflow)
                        &&& *final(self) == *old(self)
                        &&& *final(bus) == *old(bus)
                    },
                    Instruction::SPO8 => if st > cpu0.stack_base {
                        &&& r == Ok::<(), StackFault>(())
                        &&& (*final(self) == ScottCPU { stack_top: (st - 1) as u16, ..cpu0 })
                        &&& Bus::write_effect(
                            *old(bus),
                            *final(bus),
                            (st - 1) as u16,
                            0,
                            old(bus).mapped((st - 1) as u16),
                        )
                    } else {
                        &&& r == Err::<(), StackFault>(StackFault::StackUnderflow)
                        &&& *final(self) == *old(self)
                        &&& *final(bus) == *old(bus)
                    },
                    Instruction::ADD8 => if st - cpu0.stack_base >= 2 {
                        &&& r == Ok::<(), StackFault>(())
                        &&& (*final(self) == ScottCPU { stack_top: (st - 1) as u16, ..cpu0 })
                        &&& binop_bus_effect(
                            *old(bus),
                            *final(bus),
                            (st - 1) as u16,
                            (st - 2) as u16,
                            wrap8(
                                old(bus).read_value((st - 1) as u16) + old(bus).read_value(
                                    (st - 2) as u16,
                                ),
                            ),
                        )
                    } else {
                        &&& r == Err::<(), StackFault>(StackFault::StackUnderflow)
                        &&& *final(self) == *old(self)
                        &&& *final(bus) == *old(bus)
                    },
                    Instruction::SUB8 => if st - cpu0.stack_base >= 2 {
                        &&& r == Ok::<(), StackFault>(())
                        &&& (*final(self) == ScottCPU { stack_top: (st - 1) as u16, ..cpu0 })
                        &&& binop_bus_effect(
                            *old(bus),
                            *final(bus),
                            (st - 1) as u16,
                            (st - 2) as u16,
                            wrap8(
                                old(bus).read_value((st - 2) as u16) - old(bus).read_value(
                                    (st - 1) as u16,
                                ),
                            ),
                        )
                    } else {
                        &&& r == Err::<(), StackFault>(StackFault::StackUnderflow)
                        &&& *final(self) == *old(self)
                        &&& *final(bus) == *old(bus)
                    },
                    Instruction::NOT => {
                        &&& r == Ok::<(), StackFault>(())
                        &&& *final(self) == *old(self)
                        &&& Bus::write_effect(
                            *old(bus),
                            *final(bus),
                            st,
                            old(bus).read_value(st) ^ 0xFF,
                            old(bus).mapped(st),
                        )
                    },
                    Instruction::HALT => {
                        &&& r == Ok::<(), StackFault>(())
                        &&& (*final(self) == ScottCPU { halted: true, ..cpu0 })
                        &&& *final(bus) == *old(bus)
                    },
                    Instruction::NOP => {
                        &&& r == Ok::<(), StackFault>(())
                        &&& *final(self) == *old(self)
                        &&& *final(bus) == *old(bus)
                    },
                }
            }),
    {
        match instruction {
            Instruction::SPU8 { data } => {
                if self.stack_top == 0xFFFF {
                    return Err(StackFault::StackOverflow);
                }
                self.push(bus, *data);
                Ok(())
            },
            Instruction::SPO8 => {
                if self.stack_top == self.stack_base {
                    return Err(StackFault::StackUnderflow);
                }
                self.pop(bus);
                Ok(())
            },
            Instruction::ADD8 => {
                if self.stack_top - self.stack_base < 2 {
                    return Err(StackFault::StackUnderflow);
                }
                let x: u8 = self.pop(bus);
                let y: u8 = self.pop(bus);
                proof {
                    lemma_wrap8_wadd(x, y);
                }
                self.push(bus, x.wrapping_add(y));
                Ok(())
            },
            Instruction::SUB8 => {
                if self.stack_top - self.stack_base < 2 {
                    return Err(StackFault::StackUnderflow);
                }
                let y: u8 = self.pop(bus);
                let x: u8 = self.pop(bus);
                proof {
                    lemma_wrap8_wsub(x, y);
                }
                self.push(bus, x.wrapping_sub(y));
                Ok(())
            },
            Instruction::NOT => {
                let value: u8 = bus.read(self.stack_top);
                bus.write(self.stack_top, value ^ 0b11111111);
                Ok(())
            },
            Instruction::HALT => {
                self.halted = true;
                Ok(())
            },
            Instruction::NOP => Ok(()),
        }
    }

    /// Fetch, decode and execute one instruction, then advance the code
    /// pointer past it.  A stack fault leaves the whole machine, and the
    /// bus, untouched.
    pub fn tick<D: Addressable>(&mut self, bus: &mut Bus<D>) -> (r: Result<(), StackFault>)
        requires
            old(bus).inv(),
            old(self).inv(),
        ensures
            final(self).inv(),
            final(bus).inv(),
            ({
                let cpu0 = *old(self);
                let st = cpu0.stack_top;
                let opcode = old(bus).read_value(cpu0.code_pointer);
                let operand = old(bus).read_value(wrap16(cpu0.code_pointer + 1));
                if opcode == SPU8 {
                    if st < 0xFFFF {
                        &&& r == Ok::<(), StackFault>(())
                        &&& (*final(self) == ScottCPU {
                            stack_top: (st + 1) as u16,
                            code_pointer: wrap16(cpu0.code_pointer + 2),
                            ..cpu0
                        })
                        &&& Bus::write_effect(
                            *old(bus),
                            *final(bus),
                            st,
                            operand,
                            old(bus).mapped(st),
                        )
                    } else {
                        &&& r == Err::<(), StackFault>(StackFault::StackOverflow)
                        &&& *final(self) == *old(self)
                        &&& *final(bus) == *old(bus)
                    }
                } else if opcode == SPO8 {
                    if st > cpu0.stack_base {
                        &&& r == Ok::<(), StackFault>(())
                        &&& (*final(self) == ScottCPU {
                            stack_top: (st - 1) as u16,
                            code_pointer: wrap16(cpu0.code_pointer + 1),
                            ..cpu0
                        })
                        &&& Bus::write_effect(
                            *old(bus),
                            *final(bus),
                            (st - 1) as u16,
                            0,
                            old(bus).mapped((st - 1) as u16),
                        )
                    } else {
                        &&& r == Err::<(), StackFault>(StackFault::StackUnderflow)
                        &&& *final(self) == *old(self)
                        &&& *final(bus) == *old(bus)
                    }
                } else if opcode == ADD8 || opcode == SUB8 {
                    if st - cpu0.stack_base >= 2 {
                        &&& r == Ok::<(), StackFault>(())
                        &&& (*final(self) == ScottCPU {
                            stack_top: (st - 1) as u16,
                            code_pointer: wrap16(cpu0.code_pointer + 1),
                            ..cpu0
                        })
                        &&& binop_bus_effect(
                            *old(bus),
                            *final(bus),
                            (st - 1) as u16,
                            (st - 2) as u16,
                            if opcode == ADD8 {
                                wrap8(
                                    old(bus).read_value((st - 1) as u16) + old(bus).read_value(
                                        (st - 2) as u16,
                                    ),
                                )
                            } else {
                                wrap8(
                                    old(bus).read_value((st - 2) as u16) - old(bus).read_value(
                                        (st - 1) as u16,
                                    ),
                                )
                            },
                        )
                    } else {
                        &&& r == Err::<(), StackFault>(StackFault::StackUnderflow)
                        &&& *final(self) == *old(self)
                        &&& *final(bus) == *old(bus)
                    }
                } else if opcode == NOT {
                    &&& r == Ok::<(), StackFault>(())
                    &&& (*final(self) == ScottCPU {
                        code_pointer: wrap16(cpu0.code_pointer + 1),
                        ..cpu0
                    })
                    &&& Bus::write_effect(
                        *old(bus),
                        *final(bus),
                        st,
                        old(bus).read_value(st) ^ 0xFF,
                        old(bus).mapped(st),
                    )
                } else if opcode == HALT {
                    &&& r == Ok::<(), StackFault>(())
                    &&& (*final(self) == ScottCPU {
                        halted: true,
                        code_pointer: wrap16(cpu0.code_pointer + 1),
                        ..cpu0
                    })
                    &&& *final(bus) == *old(bus)
                } else {
                    &&& r == Ok::<(), StackFault>(())
                    &&& (*final(self) == ScottCPU {
                        code_pointer: wrap16(cpu0.code_pointer + 1),
                        ..cpu0
                    })
                    &&& *final(bus) == *old(bus)
                }
            }),
    {
        let opcode: u8 = bus.read(self.code_pointer);
        let decoded = self.make_instruction(bus, opcode);
        let (instruction, size) = decoded;
        match self.execute_instruction(bus, &instruction) {
            Ok(()) => {
                proof {
                    lemma_wrap16_wadd(self.code_pointer, size);
                }
                self.code_pointer = self.code_pointer.wrapping_add(size);
                Ok(())
            },
            Err(f) => Err(f),
        }
    }
}

} // verus!
