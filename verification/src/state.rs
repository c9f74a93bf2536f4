//! The mathematical model of the machine and of every instruction.
//!
//! [`StateV`] is the ghost image of the whole machine state.  The semantics
//! of the instruction set is the function [`exec_spec`]: given a state whose
//! program counter has already passed the fetched instruction, it yields the
//! next state, or the fatal error that the instruction raises.  A whole
//! fetch/decode/execute cycle is [`tick_spec`].  The executable machine in
//! [`crate::machine`] is proved to follow these functions exactly.

use vstd::prelude::*;

use crate::draw::{apply_flips, collide, lemma_double_draw, sprite_positions};
use crate::error::VmError;
use crate::instr::{spec_decode, Instr};

verus! {

/// The ghost image of the whole machine state.
#[verifier::ext_equal]
pub ghost struct StateV {
    /// Program counter.
    pub pc: u16,
    /// The 4096 memory bytes.
    pub ram: Seq<u8>,
    /// The 64 x 32 display cells, row-major.
    pub screen: Seq<bool>,
    /// The 16 general registers V0 through VF.
    pub v: Seq<u8>,
    /// Index register.
    pub i: u16,
    /// Stack pointer: the next free stack slot.
    pub sp: u16,
    /// The 16 key states.
    pub keys: Seq<bool>,
    /// The 16 return-address slots.
    pub stack: Seq<u16>,
    /// Delay timer.
    pub dt: u8,
    /// Sound timer.
    pub st: u8,
}

impl StateV {
    /// Well-formedness: all parts have their fixed sizes and the stack
    /// pointer never passes the stack's capacity.
    pub open spec fn wf(self) -> bool {
        &&& self.ram.len() == 4096
        &&& self.screen.len() == 2048
        &&& self.v.len() == 16
        &&& self.keys.len() == 16
        &&& self.stack.len() == 16
        &&& self.sp <= 16
    }
}

/// The built-in glyph font: five bytes for each of the sixteen hex digits.
pub open spec fn font_seq() -> Seq<u8> {
    seq![
        0xF0u8, 0x90, 0x90, 0x90, 0xF0,
        0x20, 0x60, 0x20, 0x20, 0x70,
        0xF0, 0x10, 0xF0, 0x80, 0xF0,
        0xF0, 0x10, 0xF0, 0x10, 0xF0,
        0x90, 0x90, 0xF0, 0x10, 0x10,
        0xF0, 0x80, 0xF0, 0x10, 0xF0,
        0xF0, 0x80, 0xF0, 0x90, 0xF0,
        0xF0, 0x10, 0x20, 0x40, 0x40,
        0xF0, 0x90, 0xF0, 0x90, 0xF0,
        0xF0, 0x90, 0xF0, 0x10, 0xF0,
        0xF0, 0x90, 0xF0, 0x90, 0x90,
        0xE0, 0x90, 0xE0, 0x90, 0xE0,
        0xF0, 0x80, 0x80, 0x80, 0xF0,
        0xE0, 0x90, 0x90, 0x90, 0xE0,
        0xF0, 0x80, 0xF0, 0x80, 0xF0,
        0xF0, 0x80, 0xF0, 0x80, 0x80,
    ]
}

/// The baseline state: font at the base of memory, everything else zeroed,
/// program counter at the load address.  Construction and reset both yield
/// exactly this state.
pub open spec fn baseline() -> StateV {
    StateV {
        pc: 0x200,
        ram: Seq::new(4096, |j: int| if 0 <= j < 80 { font_seq()[j] } else { 0u8 }),
        screen: Seq::new(2048, |j: int| false),
        v: Seq::new(16, |j: int| 0u8),
        i: 0,
        sp: 0,
        keys: Seq::new(16, |j: int| false),
        stack: Seq::new(16, |j: int| 0u16),
        dt: 0,
        st: 0,
    }
}

/// The big-endian instruction word composed of two memory bytes.
pub open spec fn spec_word(hi: u8, lo: u8) -> u16 {
    (hi * 256 + lo) as u16
}

/// The state right after a fetch: the program counter has advanced past
/// the fetched word.
pub open spec fn fetched(s: StateV) -> StateV {
    StateV { pc: (s.pc + 2) as u16, ..s }
}

/// The lowest pressed key index at or above `k`, or 16 if none is pressed.
pub open spec fn first_pressed_from(keys: Seq<bool>, k: int) -> int
    decreases 16 - k,
{
    if k < 0 || k >= 16 {
        16
    } else if keys[k] {
        k
    } else {
        first_pressed_from(keys, k + 1)
    }
}

/// The semantics of one instruction, as a transition on the post-fetch
/// state `s`.  `b` is the uniformly random byte consumed by `Rand`
/// instructions and ignored by every other instruction.  An `Err` result is
/// the fatal error the instruction raises; the machine then keeps its prior
/// state.
pub open spec fn exec_spec(s: StateV, instr: Instr, b: u8) -> Result<StateV, VmError> {
    match instr {
        Instr::Cls => Ok(StateV { screen: Seq::new(2048, |j: int| false), ..s }),
        Instr::Ret => if s.sp >= 1 {
            Ok(StateV { pc: s.stack[s.sp - 1], sp: (s.sp - 1) as u16, ..s })
        } else {
            Err(VmError::StackUnderflow)
        },
        Instr::Jump { nnn } => Ok(StateV { pc: nnn, ..s }),
        Instr::Call { nnn } => if s.sp < 16 {
            Ok(
                StateV {
                    stack: s.stack.update(s.sp as int, s.pc),
                    sp: (s.sp + 1) as u16,
                    pc: nnn,
                    ..s
                },
            )
        } else {
            Err(VmError::StackOverflow)
        },
        Instr::SkipEqImm { x, nn } => Ok(
            if s.v[x as int] == nn {
                StateV { pc: (s.pc + 2) as u16, ..s }
            } else {
                s
            },
        ),
        Instr::SkipNeImm { x, nn } => Ok(
            if s.v[x as int] != nn {
                StateV { pc: (s.pc + 2) as u16, ..s }
            } else {
                s
            },
        ),
        Instr::SkipEqReg { x, y } => Ok(
            if s.v[x as int] == s.v[y as int] {
                StateV { pc: (s.pc + 2) as u16, ..s }
            } else {
                s
            },
        ),
        Instr::SetImm { x, nn } => Ok(StateV { v: s.v.update(x as int, nn), ..s }),
        Instr::AddImm { x, nn } => Ok(
            StateV { v: s.v.update(x as int, ((s.v[x as int] + nn) % 256) as u8), ..s },
        ),
        Instr::MovReg { x, y } => Ok(StateV { v: s.v.update(x as int, s.v[y as int]), ..s }),
        Instr::OrReg { x, y } => Ok(
            StateV { v: s.v.update(x as int, s.v[x as int] | s.v[y as int]), ..s },
        ),
        Instr::AndReg { x, y } => Ok(
            StateV { v: s.v.update(x as int, s.v[x as int] & s.v[y as int]), ..s },
        ),
        Instr::XorReg { x, y } => Ok(
            StateV { v: s.v.update(x as int, s.v[x as int] ^ s.v[y as int]), ..s },
        ),
        Instr::AddReg { x, y } => {
            let sum = s.v[x as int] + s.v[y as int];
            let vf: u8 = if sum > 255 {
                1
            } else {
                0
            };
            Ok(StateV { v: s.v.update(x as int, (sum % 256) as u8).update(15, vf), ..s })
        },
        Instr::SubReg { x, y } => {
            let borrow = s.v[x as int] < s.v[y as int];
            let diff = if borrow {
                (s.v[x as int] - s.v[y as int] + 256) as u8
            } else {
                (s.v[x as int] - s.v[y as int]) as u8
            };
            let vf: u8 = if borrow {
                0
            } else {
                1
            };
            Ok(StateV { v: s.v.update(x as int, diff).update(15, vf), ..s })
        },
        Instr::ShrReg { x } => {
            let lsb = s.v[x as int] & 1;
            Ok(StateV { v: s.v.update(x as int, s.v[x as int] >> 1u8).update(15, lsb), ..s })
        },
        Instr::SubFrom { x, y } => {
            let borrow = s.v[y as int] < s.v[x as int];
            let diff = if borrow {
                (s.v[y as int] - s.v[x as int] + 256) as u8
            } else {
                (s.v[y as int] - s.v[x as int]) as u8
            };
            let vf: u8 = if borrow {
                0
            } else {
                1
            };
            Ok(StateV { v: s.v.update(x as int, diff).update(15, vf), ..s })
        },
        Instr::ShlReg { x } => {
            let msb = (s.v[x as int] >> 7u8) & 1;
            Ok(StateV { v: s.v.update(x as int, s.v[x as int] << 1u8).update(15, msb), ..s })
        },
        Instr::SkipNeReg { x, y } => Ok(
            if s.v[x as int] != s.v[y as int] {
                StateV { pc: (s.pc + 2) as u16, ..s }
            } else {
                s
            },
        ),
        Instr::SetIndex { nnn } => Ok(StateV { i: nnn, ..s }),
        Instr::JumpV0 { nnn } => Ok(StateV { pc: (s.v[0] + nnn) as u16, ..s }),
        Instr::Rand { x, nn } => Ok(StateV { v: s.v.update(x as int, b & nn), ..s }),
        Instr::Draw { x, y, n } => if s.i + n <= 4096 {
            let ps = sprite_positions(s.ram, s.i as int, s.v[x as int], s.v[y as int], n as int);
            let vf: u8 = if collide(s.screen, ps) {
                1
            } else {
                0
            };
            Ok(StateV { screen: apply_flips(s.screen, ps), v: s.v.update(15, vf), ..s })
        } else {
            Err(VmError::MemOutOfBounds)
        },
        Instr::SkipKey { x } => if s.v[x as int] < 16 {
            Ok(
                if s.keys[s.v[x as int] as int] {
                    StateV { pc: (s.pc + 2) as u16, ..s }
                } else {
                    s
                },
            )
        } else {
            Err(VmError::InvalidKey)
        },
        Instr::SkipNoKey { x } => if s.v[x as int] < 16 {
            Ok(
                if !s.keys[s.v[x as int] as int] {
                    StateV { pc: (s.pc + 2) as u16, ..s }
                } else {
                    s
                },
            )
        } else {
            Err(VmError::InvalidKey)
        },
        Instr::GetDelay { x } => Ok(StateV { v: s.v.update(x as int, s.dt), ..s }),
        Instr::WaitKey { x } => {
            let k = first_pressed_from(s.keys, 0);
            if k < 16 {
                Ok(StateV { v: s.v.update(x as int, k as u8), ..s })
            } else {
                Ok(StateV { pc: (s.pc - 2) as u16, ..s })
            }
        },
        Instr::SetDelay { x } => Ok(StateV { dt: s.v[x as int], ..s }),
        Instr::SetSound { x } => Ok(StateV { st: s.v[x as int], ..s }),
        Instr::AddIndex { x } => Ok(StateV { i: ((s.i + s.v[x as int]) % 0x10000) as u16, ..s }),
        Instr::FontChar { x } => Ok(StateV { i: (s.v[x as int] * 5) as u16, ..s }),
        Instr::Bcd { x } => if s.i + 2 < 4096 {
            let vx = s.v[x as int];
            Ok(
                StateV {
                    ram: s.ram.update(s.i as int, (vx / 100) as u8).update(
                        s.i + 1,
                        ((vx / 10) % 10) as u8,
                    ).update(s.i + 2, (vx % 10) as u8),
                    ..s
                },
            )
        } else {
            Err(VmError::MemOutOfBounds)
        },
        Instr::StoreRegs { x } => if s.i + x < 4096 {
            Ok(
                StateV {
                    ram: Seq::new(
                        4096,
                        |j: int|
                            if s.i <= j <= s.i + x {
                                s.v[j - s.i]
                            } else {
                                s.ram[j]
                            },
                    ),
                    ..s
                },
            )
        } else {
            Err(VmError::MemOutOfBounds)
        },
        Instr::LoadRegs { x } => if s.i + x < 4096 {
            Ok(
                StateV {
                    v: Seq::new(
                        16,
                        |j: int|
                            if 0 <= j <= x {
                                s.ram[s.i + j]
                            } else {
                                s.v[j]
                            },
                    ),
                    ..s
                },
            )
        } else {
            Err(VmError::MemOutOfBounds)
        },
    }
}

/// One whole fetch/decode/execute cycle on state `s`, with `b` the random
/// byte a `Rand` instruction would consume.  Fetching beyond memory and
/// words that decode to nothing are fatal; otherwise the decoded
/// instruction's transition applies to the post-fetch state.
pub open spec fn tick_spec(s: StateV, b: u8) -> Result<StateV, VmError> {
    if s.pc + 1 < 4096 {
        let w = spec_word(s.ram[s.pc as int], s.ram[s.pc as int + 1]);
        match spec_decode(w) {
            Some(instr) => exec_spec(fetched(s), instr, b),
            None => Err(VmError::UnknownOpcode { op: w, pc: s.pc }),
        }
    } else {
        Err(VmError::MemOutOfBounds)
    }
}

/// The random byte can only change what a `Rand` instruction stores, never
/// whether an instruction fails nor which error it raises: if a transition
/// fails for one byte it fails identically for every byte.
pub proof fn lemma_exec_spec_err_rand_indep(s: StateV, instr: Instr, b1: u8, b2: u8)
    ensures
        exec_spec(s, instr, b1) is Err ==> exec_spec(s, instr, b1) == exec_spec(s, instr, b2),
{
}

/// The same, lifted to a whole cycle.
pub proof fn lemma_tick_spec_err_rand_indep(s: StateV, b1: u8, b2: u8)
    ensures
        tick_spec(s, b1) is Err ==> tick_spec(s, b1) == tick_spec(s, b2),
{
    lemma_exec_spec_err_rand_indep(
        fetched(s),
        spec_decode(spec_word(s.ram[s.pc as int], s.ram[s.pc as int + 1])).unwrap(),
        b1,
        b2,
    );
}

/// Stack round trip: a subroutine call followed by a return restores the
/// program counter to the instruction immediately after the call, and
/// leaves the stack pointer where it was.  `s` is the state right after the
/// call instruction was fetched, so `s.pc` is the address of the
/// instruction following the call; the return instruction's own fetch is
/// the `fetched` step in the middle.
pub proof fn lemma_call_then_ret(s: StateV, nnn: u16, b1: u8, b2: u8)
    requires
        s.wf(),
        s.sp < 16,
    ensures
        exec_spec(s, Instr::Call { nnn }, b1) matches Ok(s1) && exec_spec(
            fetched(s1),
            Instr::Ret,
            b2,
        ) matches Ok(s2) && s2.pc == s.pc && s2.sp == s.sp && s2.v == s.v && s2.ram == s.ram
            && s2.screen == s.screen,
{
}

/// Draw idempotence under double-draw, at the instruction level: executing
/// the identical draw instruction twice in a row restores every display
/// cell to its pre-draw state, and the second draw reports a collision
/// (`VF` = 1) exactly when the first draw turned some cell on.  `x` and
/// `y` must not name `VF` itself, which the first draw overwrites.
pub proof fn lemma_draw_twice(s: StateV, x: u8, y: u8, n: u8, b1: u8, b2: u8)
    requires
        s.wf(),
        x < 15,
        y < 15,
        n < 16,
        s.i + n <= 4096,
    ensures
        exec_spec(s, Instr::Draw { x, y, n }, b1) matches Ok(s1) && exec_spec(
            fetched(s1),
            Instr::Draw { x, y, n },
            b2,
        ) matches Ok(s2) && s2.screen == s.screen && ({
            let ps = sprite_positions(s.ram, s.i as int, s.v[x as int], s.v[y as int], n as int);
            s2.v[15] == 1 <==> exists|k: int| 0 <= k < ps.len() && !s.screen[#[trigger] ps[k]]
        }),
{
    lemma_double_draw(s.screen, s.ram, s.i as int, s.v[x as int], s.v[y as int], n as int);
}

} // verus!
