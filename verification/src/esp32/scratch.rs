//! A block with a single register that holds what is written to it: the smallest
//! driver there is.

use vstd::prelude::*;

use super::RegOp;

verus! {

pub const SCRATCH_BASE: u32 = 0x3FF5_5000;
pub const SCRATCH_VALUE: u32 = 0x00;

/// How the block is brought up.
#[derive(Clone, Copy, Debug, PartialEq, Eq, Structural)]
pub struct ScratchPort {
    /// What the register begins with.
    pub seed: u32,
}

/// Why it could not be.
#[derive(Clone, Copy, Debug, PartialEq, Eq, Structural)]
pub enum ScratchError {
    /// Somebody has it.
    InUse,
}

impl ScratchError {
    /// What to tell the user.
    pub fn message(self) -> (text: &'static str)
        ensures
            text@ == "esp32 scratch already open"@,
    {
        match self {
            ScratchError::InUse => "esp32 scratch already open",
        }
    }
}

/// Takes what the flag stands for, or says that it is taken.
pub fn claim(flag: &mut bool) -> (r: Result<(), ScratchError>)
    ensures
        r == if *old(flag) {
            Err::<(), ScratchError>(ScratchError::InUse)
        } else {
            Ok::<(), ScratchError>(())
        },
        *final(flag),
{
    if *flag {
        Err(ScratchError::InUse)
    } else {
        *flag = true;
        Ok(())
    }
}

/// The block.
#[derive(Clone, Copy, Debug, PartialEq, Eq, Structural)]
pub struct Esp32Scratch {
    pub base: u32,
}

impl Esp32Scratch {
    /// Takes the block and writes its first value.
    pub fn open(flag: &mut bool, port: &ScratchPort) -> (r: Result<(Self, RegOp), ScratchError>)
        ensures
            r == if *old(flag) {
                Err::<(Self, RegOp), ScratchError>(ScratchError::InUse)
            } else {
                Ok::<(Self, RegOp), ScratchError>(
                    (
                        Esp32Scratch { base: SCRATCH_BASE },
                        RegOp::Write {
                            addr: (SCRATCH_BASE + SCRATCH_VALUE) as u32,
                            value: port.seed,
                        },
                    ),
                )
            },
            *final(flag),
    {
        match claim(flag) {
            Err(e) => Err(e),
            Ok(()) => {
                let this: Esp32Scratch = Esp32Scratch { base: SCRATCH_BASE };
                Ok((this, this.store(port.seed)))
            },
        }
    }

    /// The block at an address, whoever has it.
    pub fn new(base: u32) -> (s: Self)
        ensures
            s.base == base,
    {
        Esp32Scratch { base }
    }

    /// Writes the register.
    pub fn store(&self, value: u32) -> (op: RegOp)
        requires
            self.base + SCRATCH_VALUE <= u32::MAX,
        ensures
            op == (RegOp::Write { addr: (self.base + SCRATCH_VALUE) as u32, value }),
    {
        RegOp::Write { addr: self.base + SCRATCH_VALUE, value }
    }

    /// Where the register is read.
    pub fn load(&self) -> (addr: u32)
        requires
            self.base + SCRATCH_VALUE <= u32::MAX,
        ensures
            addr == self.base + SCRATCH_VALUE,
    {
        self.base + SCRATCH_VALUE
    }

    /// Gives the block back.
    pub fn close(flag: &mut bool)
        ensures
            !*final(flag),
    {
        *flag = false;
    }
}

/// What is stored is loaded.
pub proof fn law_a_load_gives_back_the_store(r: super::Registers, base: u32, value: u32)
    requires
        base + SCRATCH_VALUE <= u32::MAX,
    ensures
        ({
            let addr = (base + SCRATCH_VALUE) as u32;
            super::after(r, RegOp::Write { addr, value }).words[addr] == value
        }),
{
}

} // verus!
