//! Commands to the flash chip over its own controller: reading, programming, erasing
//! and lifting its write protection, each as a script of register accesses and
//! waits. The cache has to be off while one runs.
//!
//! Two conventions meet here. Erasing, programming and the write enable are commands
//! that the controller knows; they take an address as it is. Reading data and status
//! are transactions built from their phases; those take an address shifted up by a
//! byte, and need one dummy cycle before the data.

use vstd::prelude::*;

use super::flash::FlashError;
use super::{judge, Poll, RegOp};

verus! {

pub const SPI1_BASE: u32 = 0x3FF4_2000;
/// The controller that the cache fetches through.
pub const SPI0_BASE: u32 = 0x3FF4_3000;

pub const CMD: u32 = SPI1_BASE + 0x00;
pub const ADDR: u32 = SPI1_BASE + 0x04;
pub const CTRL: u32 = SPI1_BASE + 0x08;
pub const RD_STATUS: u32 = SPI1_BASE + 0x10;
pub const USER: u32 = SPI1_BASE + 0x1C;
pub const USER1: u32 = SPI1_BASE + 0x20;
pub const USER2: u32 = SPI1_BASE + 0x24;
pub const MOSI_DLEN: u32 = SPI1_BASE + 0x28;
pub const MISO_DLEN: u32 = SPI1_BASE + 0x2C;
pub const W0: u32 = SPI1_BASE + 0x80;

/// The state machines of the two controllers; not zero while one is at work.
pub const SPI1_EXT2: u32 = SPI1_BASE + 0xF8;
pub const SPI0_EXT2: u32 = SPI0_BASE + 0xF8;
pub const SPI_ST_MASK: u32 = 0x7;

pub const CMD_FLASH_READ: u32 = 1 << 31;
pub const CMD_FLASH_WREN: u32 = 1 << 30;
pub const CMD_FLASH_WRDI: u32 = 1 << 29;
pub const CMD_FLASH_RDSR: u32 = 1 << 27;
pub const CMD_FLASH_WRSR: u32 = 1 << 26;
pub const CMD_FLASH_PP: u32 = 1 << 25;
pub const CMD_FLASH_SE: u32 = 1 << 24;
/// A transaction built from its phases.
pub const CMD_USR: u32 = 1 << 18;

/// Any of these set means that a command runs; each clears itself.
pub const CMD_ANY: u32 = CMD_FLASH_READ | CMD_FLASH_WREN | CMD_FLASH_RDSR | CMD_FLASH_PP
    | CMD_FLASH_SE | CMD_FLASH_WRDI | CMD_FLASH_WRSR | CMD_USR;

/// A status write sends two bytes.
pub const CTRL_WRSR_2B: u32 = 1 << 22;

/// What refuses an erase.
pub const STATUS_SRP0: u32 = 1 << 7;
pub const STATUS_BP_MASK: u32 = 0x7C;
/// Quad enable, in the second status byte; a status write has to keep it.
pub const STATUS2_QE: u32 = 1 << 9;
/// A program or erase is at work.
pub const STATUS_WIP: u32 = 1 << 0;

/// How many looks in vain a command is given.
pub const XFER_SPINS: u32 = 200_000;
/// How long the chip is given, in cycles of the core: two seconds.
pub const BUSY_CYCLES: u32 = 160_000_000;
/// What is left behind about a chip that never got ready.
pub const NEVER_READY: u32 = 0xDEAD_0001;

pub const ADDRESS_MASK_24BIT: u32 = 0x00FF_FFFF;
pub const ADDR_BITLEN_SHIFT: u32 = 26;
pub const ADDR_BITS: u32 = 24;
pub const USR_COMMAND: u32 = 1 << 31;
pub const USR_ADDR: u32 = 1 << 30;
pub const USR_DUMMY: u32 = 1 << 29;
pub const USR_MISO: u32 = 1 << 28;
pub const DUMMY_CYCLELEN_MASK: u32 = 0xFF;
/// An opcode of eight bits, written as one less.
pub const COMMAND_BITLEN_8: u32 = 7 << 28;
pub const OPCODE_RDSR: u32 = 0x05;
pub const OPCODE_READ: u32 = 0x03;
/// Ends continuous read mode, in which the chip takes commands for addresses.
pub const OPCODE_MODE_RESET: u32 = 0xFF;
/// Dummy cycles of a transaction before its data.
pub const EXTRA_DUMMY: u32 = 1;

/// What one program may not cross: the chip would go on at the page's beginning.
pub const PAGE_SIZE: u32 = 256;
/// What the data buffer holds.
pub const BUFFER_WORDS: usize = 16;

/// One line of a script. A script ends at the first line that fails.
#[derive(Clone, Copy, Debug, PartialEq, Eq, Structural)]
pub enum FlashOp {
    Reg(RegOp),
    /// Wait for this controller's state machine and then the cache's, as
    /// [`fsm_idle`] judges.
    AwaitIdle,
    /// Wait for the command to clear itself, as [`command_done`] judges.
    AwaitCommand,
    /// Read the status over and over until [`ready`] is satisfied.
    AwaitReady,
    /// Lift the write protection, unless that was done before: wait until the chip is
    /// ready, read its status and run what [`unlock`] says.
    Unlock,
    /// Copy `n` words of the data buffer to the destination at `at`.
    Fetch { at: usize, n: usize },
    /// Leave `value` behind in a slot of the trace.
    Mark { slot: usize, value: u32 },
    /// Read the status and leave it behind in a slot of the trace, or `unread` where it
    /// cannot be read. This line does not fail.
    Trace { slot: usize, unread: u32 },
    /// Wait as [`FlashOp::AwaitIdle`] and [`FlashOp::AwaitReady`] do, leave the status
    /// behind as [`FlashOp::Trace`] does, whether or not the wait came off, and then fail
    /// where it did not.
    AwaitTraced { slot: usize, unread: u32 },
}

/// The slots of the trace.
pub const TRACE_SLOTS: usize = 4;
/// Set in a slot that holds a status, so that a status of zero shows.
pub const TRACE_READ: u32 = 0x100;
/// Left in a slot of an erase whose status could not be read.
pub const ERASE_UNREAD: u32 = 0x200;
/// Left in the slot of an unlocking whose status could not be read afterwards.
pub const UNLOCK_UNREAD: u32 = 0x999;
/// How far an unlocking has come: nothing yet, and then one more for each step.
pub const UNLOCK_BEGUN: u32 = 0x1000;
/// What one snapshot holds.
pub const SNAPSHOT_WORDS: usize = 8;

/// What the flash operations leave behind for a caller to look at afterwards; while the
/// cache is off nothing can be printed.
#[derive(Clone, Copy, Debug)]
pub struct Diagnostics {
    /// How far the last unlocking came, and the status before it and after; overwritten
    /// by the status through the first erase: before the write is enabled, after, after
    /// the command, and once the chip is ready.
    pub status_trace: [u32; 4],
    /// The controller's registers at the top of the first two reads.
    pub reg_snapshot: [u32; 16],
    /// Erases begun.
    pub erases: u32,
    /// Reads begun.
    pub reads: u32,
}

/// What a slot of the trace comes to by a status.
pub open spec fn traced(status: Result<u32, FlashError>, unread: u32) -> u32 {
    match status {
        Ok(v) => v | TRACE_READ,
        Err(e) => unread,
    }
}

/// Where the snapshot of a read belongs that `reads` reads came before.
pub open spec fn snapshot_place(reads: u32) -> Option<usize> {
    if reads == 0 {
        Some(0)
    } else if reads == 1 {
        Some(SNAPSHOT_WORDS)
    } else {
        None
    }
}

impl Diagnostics {
    /// Nothing left behind yet.
    pub fn new() -> (d: Self)
        ensures
            d.status_trace@ == Seq::new(4, |i: int| 0u32),
            d.reg_snapshot@ == Seq::new(16, |i: int| 0u32),
            d.erases == 0,
            d.reads == 0,
    {
        let d: Diagnostics = Diagnostics {
            status_trace: [0u32; 4],
            reg_snapshot: [0u32; 16],
            erases: 0,
            reads: 0,
        };
        assert(d.status_trace@ =~= Seq::new(4, |i: int| 0u32));
        assert(d.reg_snapshot@ =~= Seq::new(16, |i: int| 0u32));
        d
    }

    /// Counts an erase, and says whether it is the first.
    pub fn begin_erase(&mut self) -> (first: bool)
        ensures
            first == (old(self).erases == 0),
            *final(self) == (Diagnostics {
                erases: old(self).erases.wrapping_add(1),
                ..*old(self)
            }),
    {
        let first: bool = self.erases == 0;
        self.erases = self.erases.wrapping_add(1);
        first
    }

    /// Counts a read, and says where its snapshot belongs if it is one of the first two.
    pub fn begin_read(&mut self) -> (place: Option<usize>)
        ensures
            place == snapshot_place(old(self).reads),
            *final(self) == (Diagnostics { reads: old(self).reads.wrapping_add(1), ..*old(self) }),
    {
        let before: u32 = self.reads;
        self.reads = before.wrapping_add(1);
        if before == 0 {
            Some(0)
        } else if before == 1 {
            Some(SNAPSHOT_WORDS)
        } else {
            None
        }
    }

    /// Leaves a snapshot behind: what [`snapshot_registers`] held.
    pub fn snapshot(&mut self, place: usize, words: [u32; 8])
        requires
            place + SNAPSHOT_WORDS <= 16,
        ensures
            final(self).reg_snapshot@ == old(self).reg_snapshot@.take(place as int) + words@
                + old(self).reg_snapshot@.skip(place + SNAPSHOT_WORDS),
            final(self).status_trace == old(self).status_trace,
            final(self).erases == old(self).erases,
            final(self).reads == old(self).reads,
    {
        for i in 0..SNAPSHOT_WORDS
            invariant
                place + SNAPSHOT_WORDS <= 16,
                self.reg_snapshot@ =~= old(self).reg_snapshot@.take(place as int) + words@.take(
                    i as int,
                ) + old(self).reg_snapshot@.skip(place + i),
                self.status_trace == old(self).status_trace,
                self.erases == old(self).erases,
                self.reads == old(self).reads,
        {
            self.reg_snapshot[place + i] = words[i];
        }
        assert(words@.take(8) =~= words@);
    }

    /// Leaves a value behind.
    pub fn mark(&mut self, slot: usize, value: u32)
        requires
            slot < TRACE_SLOTS,
        ensures
            final(self).status_trace@ == old(self).status_trace@.update(slot as int, value),
            final(self).reg_snapshot == old(self).reg_snapshot,
            final(self).erases == old(self).erases,
            final(self).reads == old(self).reads,
    {
        self.status_trace[slot] = value;
    }

    /// Leaves a status behind.
    pub fn trace(&mut self, slot: usize, status: Result<u32, FlashError>, unread: u32)
        requires
            slot < TRACE_SLOTS,
        ensures
            final(self).status_trace@ == old(self).status_trace@.update(
                slot as int,
                traced(status, unread),
            ),
            final(self).reg_snapshot == old(self).reg_snapshot,
            final(self).erases == old(self).erases,
            final(self).reads == old(self).reads,
    {
        let value: u32 = match status {
            Ok(v) => v | TRACE_READ,
            Err(_) => unread,
        };
        self.mark(slot, value);
    }
}

proof fn lemma_traced(v: u32)
    by (bit_vector)
    requires
        v <= 0xFF,
    ensures
        v | 0x100 == v + 0x100,
{
}

/// A slot that holds a status shows which, and that it holds one: it is not zero, as a
/// slot that nothing was left in is, nor what is left where there was none to be had.
pub proof fn law_a_trace_shows_its_status(v: u32)
    requires
        v <= 0xFF,
    ensures
        traced(Ok(v), ERASE_UNREAD) == v + 0x100,
        traced(Ok(v), ERASE_UNREAD) != 0,
        traced(Ok(v), ERASE_UNREAD) != ERASE_UNREAD,
        traced(Ok(v), UNLOCK_UNREAD) != UNLOCK_UNREAD,
{
    lemma_traced(v);
}

/// The registers that a snapshot holds, in order.
pub fn snapshot_registers() -> (regs: [u32; 8])
    ensures
        regs@ == seq![CMD, ADDR, CTRL, USER, USER1, MISO_DLEN, MOSI_DLEN, RD_STATUS],
{
    let regs: [u32; 8] = [CMD, ADDR, CTRL, USER, USER1, MISO_DLEN, MOSI_DLEN, RD_STATUS];
    assert(regs@ =~= seq![CMD, ADDR, CTRL, USER, USER1, MISO_DLEN, MOSI_DLEN, RD_STATUS]);
    regs
}

/// What the cache left in the registers that a script disturbs.
#[derive(Clone, Copy, Debug, PartialEq, Eq, Structural)]
pub struct Saved {
    pub ctrl: u32,
    pub user: u32,
    pub user1: u32,
    pub user2: u32,
    pub addr: u32,
    pub miso_dlen: u32,
    pub mosi_dlen: u32,
}

/// What a status read disturbs.
#[derive(Clone, Copy, Debug, PartialEq, Eq, Structural)]
pub struct Phases {
    pub user: u32,
    pub user1: u32,
    pub user2: u32,
    pub miso_dlen: u32,
    pub ctrl: u32,
}

/// The accesses that give a script's registers back.
pub open spec fn restoring(s: Saved) -> Seq<RegOp> {
    seq![
        RegOp::Write { addr: CTRL, value: s.ctrl },
        RegOp::Write { addr: USER, value: s.user },
        RegOp::Write { addr: USER1, value: s.user1 },
        RegOp::Write { addr: USER2, value: s.user2 },
        RegOp::Write { addr: ADDR, value: s.addr },
        RegOp::Write { addr: MISO_DLEN, value: s.miso_dlen },
        RegOp::Write { addr: MOSI_DLEN, value: s.mosi_dlen },
        RegOp::Drain { addr: USER },
    ]
}

/// Gives a script's registers back, however it ended.
pub fn restore(s: &Saved) -> (ops: Vec<RegOp>)
    ensures
        ops@ == restoring(*s),
{
    let ops: Vec<RegOp> = vec![
        RegOp::Write { addr: CTRL, value: s.ctrl },
        RegOp::Write { addr: USER, value: s.user },
        RegOp::Write { addr: USER1, value: s.user1 },
        RegOp::Write { addr: USER2, value: s.user2 },
        RegOp::Write { addr: ADDR, value: s.addr },
        RegOp::Write { addr: MISO_DLEN, value: s.miso_dlen },
        RegOp::Write { addr: MOSI_DLEN, value: s.mosi_dlen },
        RegOp::Drain { addr: USER },
    ];
    assert(ops@ =~= restoring(*s));
    ops
}

/// The accesses that ask for the status byte.
pub open spec fn asking_status(user1: u32) -> Seq<RegOp> {
    seq![
        RegOp::Write { addr: USER, value: 0 },
        RegOp::Write { addr: CTRL, value: 0 },
        RegOp::Write { addr: USER, value: USR_COMMAND | USR_MISO | USR_DUMMY },
        RegOp::Write {
            addr: USER1,
            value: (user1 & !DUMMY_CYCLELEN_MASK) | (EXTRA_DUMMY - 1) as u32,
        },
        RegOp::Write { addr: USER2, value: COMMAND_BITLEN_8 | OPCODE_RDSR },
        RegOp::Write { addr: MISO_DLEN, value: 7 },
        RegOp::Write { addr: W0, value: 0 },
        RegOp::Drain { addr: USER },
        RegOp::Write { addr: CMD, value: CMD_USR },
    ]
}

/// Asks for the status byte, given what [`USER1`] holds. Both state machines and the
/// command have to be at rest; the byte is in [`W0`] when the command is done.
pub fn status_request(user1: u32) -> (ops: Vec<RegOp>)
    ensures
        ops@ == asking_status(user1),
{
    let ops: Vec<RegOp> = vec![
        RegOp::Write { addr: USER, value: 0 },
        RegOp::Write { addr: CTRL, value: 0 },
        RegOp::Write { addr: USER, value: USR_COMMAND | USR_MISO | USR_DUMMY },
        RegOp::Write {
            addr: USER1,
            value: (user1 & !DUMMY_CYCLELEN_MASK) | (EXTRA_DUMMY - 1),
        },
        RegOp::Write { addr: USER2, value: COMMAND_BITLEN_8 | OPCODE_RDSR },
        RegOp::Write { addr: MISO_DLEN, value: 7 },
        RegOp::Write { addr: W0, value: 0 },
        RegOp::Drain { addr: USER },
        RegOp::Write { addr: CMD, value: CMD_USR },
    ];
    assert(ops@ =~= asking_status(user1));
    ops
}

/// The accesses that give a status read's registers back.
pub open spec fn giving_back(p: Phases) -> Seq<RegOp> {
    seq![
        RegOp::Write { addr: USER, value: p.user },
        RegOp::Write { addr: USER1, value: p.user1 },
        RegOp::Write { addr: USER2, value: p.user2 },
        RegOp::Write { addr: MISO_DLEN, value: p.miso_dlen },
        RegOp::Write { addr: CTRL, value: p.ctrl },
    ]
}

/// Gives a status read's registers back, whether or not it came off.
pub fn status_restore(p: &Phases) -> (ops: Vec<RegOp>)
    ensures
        ops@ == giving_back(*p),
{
    let ops: Vec<RegOp> = vec![
        RegOp::Write { addr: USER, value: p.user },
        RegOp::Write { addr: USER1, value: p.user1 },
        RegOp::Write { addr: USER2, value: p.user2 },
        RegOp::Write { addr: MISO_DLEN, value: p.miso_dlen },
        RegOp::Write { addr: CTRL, value: p.ctrl },
    ];
    assert(ops@ =~= giving_back(*p));
    ops
}

/// The status byte in the first word of the data buffer.
pub fn status_value(w0: u32) -> (status: u32)
    ensures
        status == w0 & 0xFF,
{
    w0 & 0xFF
}

/// The cycles since `start`, on a counter that wraps.
pub fn elapsed(now: u32, start: u32) -> (cycles: u32)
    ensures
        cycles == (now - start) % 0x1_0000_0000,
{
    now.wrapping_sub(start)
}

/// What a wait bounded in time comes to.
pub open spec fn timed(done: bool, cycles: u32) -> Poll {
    if done {
        Poll::Done
    } else if cycles > BUSY_CYCLES {
        Poll::TimedOut
    } else {
        Poll::Again
    }
}

/// A controller's state machine is at rest.
pub open spec fn at_rest(ext2: u32) -> bool {
    ext2 & SPI_ST_MASK == 0
}

/// No command runs.
pub open spec fn command_over(cmd: u32) -> bool {
    cmd & CMD_ANY == 0
}

/// The chip is done with its last program or erase.
pub open spec fn chip_done(status: u32) -> bool {
    status & STATUS_WIP == 0
}

/// Whether a controller is at rest, after so many cycles of waiting.
pub fn fsm_idle(ext2: u32, cycles: u32) -> (p: Poll)
    ensures
        p == timed(at_rest(ext2), cycles),
{
    if ext2 & SPI_ST_MASK == 0 {
        Poll::Done
    } else if cycles > BUSY_CYCLES {
        Poll::TimedOut
    } else {
        Poll::Again
    }
}

/// Whether the command has cleared itself, after `spins` looks in vain.
pub fn command_done(cmd: u32, spins: u32) -> (p: Poll)
    ensures
        p == super::verdict(command_over(cmd), spins, XFER_SPINS),
{
    judge(cmd & CMD_ANY == 0, spins, XFER_SPINS)
}

/// Whether the chip is done with its last program or erase, after so many cycles of
/// waiting.
pub fn ready(status: u32, cycles: u32) -> (p: Poll)
    ensures
        p == timed(chip_done(status), cycles),
{
    if status & STATUS_WIP == 0 {
        Poll::Done
    } else if cycles > BUSY_CYCLES {
        Poll::TimedOut
    } else {
        Poll::Again
    }
}

/// The lines that run one command.
pub open spec fn commanding(bit: u32) -> Seq<FlashOp> {
    seq![
        FlashOp::AwaitIdle,
        FlashOp::AwaitCommand,
        FlashOp::Reg(RegOp::Drain { addr: USER }),
        FlashOp::Reg(RegOp::Write { addr: CMD, value: bit }),
        FlashOp::AwaitCommand,
    ]
}

/// The lines that wait for the chip.
pub open spec fn awaiting() -> Seq<FlashOp> {
    seq![FlashOp::AwaitIdle, FlashOp::AwaitReady]
}

/// The lines that end continuous read mode, and do nothing where the chip is not in
/// it.
pub open spec fn leaving_continuous_read() -> Seq<FlashOp> {
    seq![
        FlashOp::AwaitIdle,
        FlashOp::AwaitCommand,
        FlashOp::Reg(RegOp::Write { addr: USER, value: 0 }),
        FlashOp::Reg(RegOp::Write { addr: CTRL, value: 0 }),
        FlashOp::Reg(RegOp::Write { addr: USER, value: USR_COMMAND }),
        FlashOp::Reg(RegOp::Update { addr: USER1, clear: DUMMY_CYCLELEN_MASK, set: 0 }),
        FlashOp::Reg(
            RegOp::Write { addr: USER2, value: COMMAND_BITLEN_8 | OPCODE_MODE_RESET },
        ),
        FlashOp::Reg(RegOp::Drain { addr: USER }),
        FlashOp::Reg(RegOp::Write { addr: CMD, value: CMD_USR }),
        FlashOp::AwaitCommand,
    ]
}

/// Appends the lines that run one command.
fn command(ops: &mut Vec<FlashOp>, bit: u32)
    ensures
        final(ops)@ == old(ops)@ + commanding(bit),
{
    ops.push(FlashOp::AwaitIdle);
    ops.push(FlashOp::AwaitCommand);
    ops.push(FlashOp::Reg(RegOp::Drain { addr: USER }));
    ops.push(FlashOp::Reg(RegOp::Write { addr: CMD, value: bit }));
    ops.push(FlashOp::AwaitCommand);
    assert(ops@ =~= old(ops)@ + commanding(bit));
}

/// Appends the lines that wait for the chip.
fn wait_ready(ops: &mut Vec<FlashOp>)
    ensures
        final(ops)@ == old(ops)@ + awaiting(),
{
    ops.push(FlashOp::AwaitIdle);
    ops.push(FlashOp::AwaitReady);
    assert(ops@ =~= old(ops)@ + awaiting());
}

/// Ends continuous read mode.
pub fn exit_continuous_read() -> (ops: Vec<FlashOp>)
    ensures
        ops@ == leaving_continuous_read(),
{
    let ops: Vec<FlashOp> = vec![
        FlashOp::AwaitIdle,
        FlashOp::AwaitCommand,
        FlashOp::Reg(RegOp::Write { addr: USER, value: 0 }),
        FlashOp::Reg(RegOp::Write { addr: CTRL, value: 0 }),
        FlashOp::Reg(RegOp::Write { addr: USER, value: USR_COMMAND }),
        FlashOp::Reg(RegOp::Update { addr: USER1, clear: DUMMY_CYCLELEN_MASK, set: 0 }),
        FlashOp::Reg(RegOp::Write { addr: USER2, value: COMMAND_BITLEN_8 | OPCODE_MODE_RESET }),
        FlashOp::Reg(RegOp::Drain { addr: USER }),
        FlashOp::Reg(RegOp::Write { addr: CMD, value: CMD_USR }),
        FlashOp::AwaitCommand,
    ];
    assert(ops@ =~= leaving_continuous_read());
    ops
}

/// The status refuses an erase.
pub open spec fn protects(status: u32) -> bool {
    status & (STATUS_SRP0 | STATUS_BP_MASK) != 0
}

/// The lines that lift the write protection: a status write of two bytes that keeps
/// quad enable, with the write enable taken back afterwards. Each step leaves behind
/// that it was reached, and the one before the last the status.
pub open spec fn unlocking() -> Seq<FlashOp> {
    seq![
        FlashOp::Mark { slot: 0, value: (UNLOCK_BEGUN + 2) as u32 },
        FlashOp::Reg(RegOp::Update { addr: CTRL, clear: 0, set: CTRL_WRSR_2B }),
    ] + commanding(CMD_FLASH_WREN) + seq![
        FlashOp::Mark { slot: 0, value: (UNLOCK_BEGUN + 3) as u32 },
        FlashOp::Reg(RegOp::Write { addr: RD_STATUS, value: STATUS2_QE }),
    ] + commanding(CMD_FLASH_WRSR) + seq![
        FlashOp::Mark { slot: 0, value: (UNLOCK_BEGUN + 4) as u32 },
        FlashOp::Reg(RegOp::Update { addr: CTRL, clear: CTRL_WRSR_2B, set: 0 }),
    ] + awaiting() + seq![
        FlashOp::Mark { slot: 0, value: (UNLOCK_BEGUN + 5) as u32 },
        FlashOp::Trace { slot: 2, unread: UNLOCK_UNREAD },
    ] + commanding(CMD_FLASH_WRDI) + seq![
        FlashOp::Mark { slot: 0, value: (UNLOCK_BEGUN + 6) as u32 },
    ]
}

/// The lines that leave a status behind and lift what it shows.
pub open spec fn lifting(status: u32) -> Seq<FlashOp> {
    seq![FlashOp::Mark { slot: 1, value: status | TRACE_READ }] + if protects(status) {
        unlocking()
    } else {
        Seq::empty()
    }
}

/// The lines that wait for the chip before its protection is looked at.
pub open spec fn before_unlocking() -> Seq<FlashOp> {
    seq![FlashOp::Mark { slot: 0, value: UNLOCK_BEGUN }] + awaiting() + seq![
        FlashOp::Mark { slot: 0, value: (UNLOCK_BEGUN + 1) as u32 },
    ]
}

/// Waits for the chip before its protection is looked at.
pub fn await_unlock() -> (ops: Vec<FlashOp>)
    ensures
        ops@ == before_unlocking(),
{
    let mut ops: Vec<FlashOp> = vec![FlashOp::Mark { slot: 0, value: UNLOCK_BEGUN }];
    wait_ready(&mut ops);
    ops.push(FlashOp::Mark { slot: 0, value: UNLOCK_BEGUN + 1 });
    assert(ops@ =~= before_unlocking());
    ops
}

/// Leaves a status behind and lifts the write protection that it shows; nothing is
/// written for a chip that has none.
pub fn unlock(status: u32) -> (ops: Vec<FlashOp>)
    ensures
        ops@ == lifting(status),
{
    let mut ops: Vec<FlashOp> = vec![FlashOp::Mark { slot: 1, value: status | TRACE_READ }];
    let ghost found = ops@;
    assert(found =~= seq![FlashOp::Mark { slot: 1, value: status | TRACE_READ }]);
    if status & (STATUS_SRP0 | STATUS_BP_MASK) == 0 {
        assert(ops@ =~= found + Seq::empty());
        return ops;
    }
    ops.push(FlashOp::Mark { slot: 0, value: UNLOCK_BEGUN + 2 });
    ops.push(FlashOp::Reg(RegOp::Update { addr: CTRL, clear: 0, set: CTRL_WRSR_2B }));
    command(&mut ops, CMD_FLASH_WREN);
    ops.push(FlashOp::Mark { slot: 0, value: UNLOCK_BEGUN + 3 });
    ops.push(FlashOp::Reg(RegOp::Write { addr: RD_STATUS, value: STATUS2_QE }));
    command(&mut ops, CMD_FLASH_WRSR);
    ops.push(FlashOp::Mark { slot: 0, value: UNLOCK_BEGUN + 4 });
    ops.push(FlashOp::Reg(RegOp::Update { addr: CTRL, clear: CTRL_WRSR_2B, set: 0 }));
    wait_ready(&mut ops);
    ops.push(FlashOp::Mark { slot: 0, value: UNLOCK_BEGUN + 5 });
    ops.push(FlashOp::Trace { slot: 2, unread: UNLOCK_UNREAD });
    command(&mut ops, CMD_FLASH_WRDI);
    ops.push(FlashOp::Mark { slot: 0, value: UNLOCK_BEGUN + 6 });
    assert(ops@ =~= found + unlocking());
    ops
}

/// Words that are read or programmed in one go.
#[derive(Clone, Copy, Debug, PartialEq, Eq, Structural)]
pub struct Span {
    pub at: usize,
    pub n: usize,
}

/// How many words one go of a read takes.
pub open spec fn read_step(done: int, total: int) -> int {
    super::smaller(total - done, BUFFER_WORDS as int)
}

/// How many words one go of a program takes: what the buffer holds, up to the end of
/// the page.
pub open spec fn program_step(addr: int, done: int, total: int) -> int {
    super::smaller(
        read_step(done, total),
        (PAGE_SIZE - (addr + 4 * done) % PAGE_SIZE as int) / 4,
    )
}

/// The goes of a read from word `done` on.
pub open spec fn read_spans(done: int, total: int) -> Seq<Span>
    decreases total - done,
{
    if done >= total {
        Seq::empty()
    } else {
        let n = read_step(done, total);
        seq![Span { at: done as usize, n: n as usize }] + read_spans(done + n, total)
    }
}

/// The goes of a program from word `done` on.
pub open spec fn program_spans(addr: int, done: int, total: int) -> Seq<Span>
    decreases total - done,
{
    let n = program_step(addr, done, total);
    if done >= total || n <= 0 {
        Seq::empty()
    } else {
        seq![Span { at: done as usize, n: n as usize }] + program_spans(addr, done + n, total)
    }
}

/// The goes cover the words from `from` to `to` in order and without a gap.
pub open spec fn cover(spans: Seq<Span>, from: int, to: int) -> bool
    decreases spans.len(),
{
    if spans.len() == 0 {
        from == to
    } else {
        &&& spans[0].at == from
        &&& 0 < spans[0].n
        &&& from + spans[0].n <= to
        &&& cover(spans.skip(1), from + spans[0].n, to)
    }
}

/// A read fetches every word once, in order, and never more at once than the buffer
/// holds.
pub proof fn law_a_read_covers_its_words(done: int, total: usize)
    requires
        0 <= done <= total,
    ensures
        cover(read_spans(done, total as int), done, total as int),
        forall|i: int|
            0 <= i < read_spans(done, total as int).len() ==> (#[trigger] read_spans(
                done,
                total as int,
            )[i]).n <= BUFFER_WORDS,
    decreases total - done,
{
    if done < total {
        let n = read_step(done, total as int);
        let rest = read_spans(done + n, total as int);
        law_a_read_covers_its_words(done + n, total);
        assert(read_spans(done, total as int).skip(1) =~= rest);
        assert forall|i: int| 0 <= i < read_spans(done, total as int).len() implies (
        #[trigger] read_spans(done, total as int)[i]).n <= BUFFER_WORDS by {
            if i > 0 {
                assert(read_spans(done, total as int)[i] == rest[i - 1]);
            }
        }
    }
}

/// A program writes every word once, in order; no go of it takes more than the
/// buffer holds, and none crosses a page.
pub proof fn law_no_program_crosses_a_page(addr: int, done: int, total: usize)
    requires
        addr % 4 == 0,
        0 <= done <= total,
    ensures
        cover(program_spans(addr, done, total as int), done, total as int),
        forall|i: int|
            0 <= i < program_spans(addr, done, total as int).len() ==> {
                let s = #[trigger] program_spans(addr, done, total as int)[i];
                &&& s.n <= BUFFER_WORDS
                &&& (addr + 4 * s.at) % PAGE_SIZE as int + 4 * s.n <= PAGE_SIZE
            },
    decreases total - done,
{
    if done < total {
        let n = program_step(addr, done, total as int);
        assert((addr + 4 * done) % 4 == 0);
        assert(n > 0);
        let all = program_spans(addr, done, total as int);
        let rest = program_spans(addr, done + n, total as int);
        law_no_program_crosses_a_page(addr, done + n, total);
        assert(all.skip(1) =~= rest);
        assert forall|i: int| 0 <= i < all.len() implies {
            let s = #[trigger] all[i];
            &&& s.n <= BUFFER_WORDS
            &&& (addr + 4 * s.at) % PAGE_SIZE as int + 4 * s.n <= PAGE_SIZE
        } by {
            if i > 0 {
                assert(all[i] == rest[i - 1]);
            }
        }
    }
}

/// The address of a read.
pub open spec fn read_address(at: u32) -> u32 {
    (at & ADDRESS_MASK_24BIT) << 8
}

/// The address of a program, with its length in bytes above.
pub open spec fn program_address(at: u32, n: int) -> u32 {
    (at & ADDRESS_MASK_24BIT) | ((4 * n) as u32) << 24
}

/// The address of an erase: the beginning of the sector.
pub open spec fn erase_address(addr: u32) -> u32 {
    (addr & !0xFFFu32) & ADDRESS_MASK_24BIT
}

proof fn lemma_addresses(at: u32, len: u32)
    by (bit_vector)
    requires
        len < 0x100,
    ensures
        ((at & 0x00FF_FFFF) << 8) >> 8 == at & 0x00FF_FFFF,
        ((at & 0x00FF_FFFF) | len << 24) & 0x00FF_FFFF == at & 0x00FF_FFFF,
        ((at & 0x00FF_FFFF) | len << 24) >> 24 == len,
        ((at & !0xFFFu32) & 0x00FF_FFFF) % 0x1000 == 0,
        ((at & !0xFFFu32) & 0x00FF_FFFF) >> 12 == (at & 0x00FF_FFFF) >> 12,
{
}

/// Each command's address register holds the address it is meant for, whatever else
/// is in it: a read's shifted up, a program's below its length, an erase's down to
/// the sector.
pub proof fn law_addresses_are_kept(at: u32, n: int)
    requires
        0 <= n <= BUFFER_WORDS,
    ensures
        read_address(at) >> 8 == at & ADDRESS_MASK_24BIT,
        program_address(at, n) & ADDRESS_MASK_24BIT == at & ADDRESS_MASK_24BIT,
        program_address(at, n) >> 24 == 4 * n,
        erase_address(at) % super::flash::SECTOR_SIZE == 0,
        erase_address(at) >> 12 == (at & ADDRESS_MASK_24BIT) >> 12,
{
    lemma_addresses(at, (4 * n) as u32);
}

/// The lines that fetch one go of a read.
pub open spec fn fetching(addr: u32, s: Span) -> Seq<FlashOp> {
    seq![
        FlashOp::Reg(
            RegOp::Write { addr: ADDR, value: read_address((addr + 4 * s.at) as u32) },
        ),
        FlashOp::Reg(RegOp::Write { addr: MISO_DLEN, value: (32 * s.n - 1) as u32 }),
    ] + commanding(CMD_USR) + seq![FlashOp::Fetch { at: s.at, n: s.n }]
}

/// The lines of some goes of a read.
pub open spec fn fetching_all(addr: u32, spans: Seq<Span>) -> Seq<FlashOp>
    decreases spans.len(),
{
    if spans.len() == 0 {
        Seq::empty()
    } else {
        fetching_all(addr, spans.drop_last()) + fetching(addr, spans.last())
    }
}

/// The lines that make a read a transaction: opcode, address, one dummy cycle, data
/// in.
pub open spec fn shaping_read() -> Seq<FlashOp> {
    seq![
        FlashOp::Reg(RegOp::Write { addr: USER, value: 0 }),
        FlashOp::Reg(RegOp::Write { addr: CTRL, value: 0 }),
        FlashOp::Reg(
            RegOp::Update {
                addr: USER1,
                clear: (0x3Fu32 << ADDR_BITLEN_SHIFT) | DUMMY_CYCLELEN_MASK,
                set: (((ADDR_BITS - 1) as u32) << ADDR_BITLEN_SHIFT) | (EXTRA_DUMMY - 1) as u32,
            },
        ),
        FlashOp::Reg(RegOp::Write { addr: USER2, value: COMMAND_BITLEN_8 | OPCODE_READ }),
        FlashOp::Reg(
            RegOp::Write { addr: USER, value: USR_COMMAND | USR_ADDR | USR_MISO | USR_DUMMY },
        ),
    ]
}

/// The script of a read.
pub open spec fn reading(addr: u32, total: int) -> Seq<FlashOp> {
    leaving_continuous_read() + awaiting() + shaping_read() + fetching_all(
        addr,
        read_spans(0, total),
    )
}

/// The lines that put some words into the data buffer.
pub open spec fn buffering(words: Seq<u32>) -> Seq<FlashOp> {
    Seq::new(
        words.len(),
        |i: int| FlashOp::Reg(RegOp::Write { addr: (W0 + 4 * i) as u32, value: words[i] }),
    )
}

/// The lines that take a command's shape from the command alone.
pub open spec fn shaping_native() -> Seq<FlashOp> {
    seq![
        FlashOp::Reg(RegOp::Write { addr: USER, value: 0 }),
        FlashOp::Reg(RegOp::Write { addr: CTRL, value: 0 }),
        FlashOp::Reg(RegOp::Update { addr: USER1, clear: DUMMY_CYCLELEN_MASK, set: 0 }),
    ]
}

/// The lines that program one go.
pub open spec fn programming(addr: u32, data: Seq<u32>, s: Span) -> Seq<FlashOp> {
    awaiting() + commanding(CMD_FLASH_WREN) + shaping_native() + seq![
        FlashOp::Reg(RegOp::Update { addr: USER, clear: USR_DUMMY, set: 0 }),
        FlashOp::Reg(
            RegOp::Write {
                addr: ADDR,
                value: program_address((addr + 4 * s.at) as u32, s.n as int),
            },
        ),
    ] + buffering(data.subrange(s.at as int, s.at + s.n)) + commanding(CMD_FLASH_PP)
}

/// The lines of some goes of a program.
pub open spec fn programming_all(addr: u32, data: Seq<u32>, spans: Seq<Span>) -> Seq<FlashOp>
    decreases spans.len(),
{
    if spans.len() == 0 {
        Seq::empty()
    } else {
        programming_all(addr, data, spans.drop_last()) + programming(addr, data, spans.last())
    }
}

/// The script of a program.
pub open spec fn writing(addr: u32, data: Seq<u32>) -> Seq<FlashOp> {
    leaving_continuous_read() + seq![FlashOp::Unlock] + programming_all(
        addr,
        data,
        program_spans(addr as int, 0, data.len() as int),
    ) + awaiting()
}

/// The line that leaves the status behind in the first erase.
pub open spec fn tracing(slot: usize, first: bool) -> Seq<FlashOp> {
    if first {
        seq![FlashOp::Trace { slot, unread: ERASE_UNREAD }]
    } else {
        Seq::empty()
    }
}

/// The script of an erase.
pub open spec fn erasing(addr: u32, first: bool) -> Seq<FlashOp> {
    seq![FlashOp::Unlock] + awaiting() + tracing(0, first) + commanding(CMD_FLASH_WREN) + tracing(
        1,
        first,
    ) + shaping_native() + seq![
        FlashOp::Reg(RegOp::Write { addr: CTRL, value: 0 }),
        FlashOp::Reg(RegOp::Write { addr: ADDR, value: erase_address(addr) }),
    ] + commanding(CMD_FLASH_SE) + tracing(2, first) + (if first {
        seq![FlashOp::AwaitTraced { slot: 3, unread: ERASE_UNREAD }]
    } else {
        awaiting()
    })
}

/// A script without what it leaves behind.
pub open spec fn untraced(ops: Seq<FlashOp>) -> Seq<FlashOp>
    decreases ops.len(),
{
    if ops.len() == 0 {
        Seq::empty()
    } else {
        untraced(ops.drop_last()) + (match ops.last() {
            FlashOp::Mark { slot, value } => Seq::empty(),
            FlashOp::Trace { slot, unread } => Seq::empty(),
            FlashOp::AwaitTraced { slot, unread } => awaiting(),
            op => seq![op],
        })
    }
}

proof fn lemma_untraced_append(a: Seq<FlashOp>, b: Seq<FlashOp>)
    ensures
        untraced(a + b) == untraced(a) + untraced(b),
    decreases b.len(),
{
    if b.len() == 0 {
        assert(a + b =~= a);
        assert(untraced(a) + untraced(b) =~= untraced(a));
    } else {
        assert((a + b).drop_last() =~= a + b.drop_last());
        lemma_untraced_append(a, b.drop_last());
        assert(untraced(a + b) =~= untraced(a) + untraced(b));
    }
}

/// No line leaves anything behind.
pub open spec fn leaves_nothing(op: FlashOp) -> bool {
    !(op is Mark || op is Trace || op is AwaitTraced)
}

proof fn lemma_untraced_same(ops: Seq<FlashOp>)
    requires
        forall|i: int| 0 <= i < ops.len() ==> leaves_nothing(#[trigger] ops[i]),
    ensures
        untraced(ops) == ops,
    decreases ops.len(),
{
    if ops.len() > 0 {
        let before = ops.drop_last();
        assert forall|i: int| 0 <= i < before.len() implies leaves_nothing(
            #[trigger] before[i],
        ) by {
            assert(before[i] == ops[i]);
        }
        lemma_untraced_same(before);
        assert(leaves_nothing(ops[ops.len() - 1]));
        assert(untraced(ops) =~= ops);
    }
}

/// The first erase tells the chip what every other does: but for the status readings it
/// leaves behind, the scripts are the same.
pub proof fn law_a_traced_erase_is_an_erase(addr: u32)
    ensures
        untraced(erasing(addr, true)) == erasing(addr, false),
{
    let a = seq![FlashOp::Unlock] + awaiting();
    let b = commanding(CMD_FLASH_WREN);
    let c = shaping_native() + seq![
        FlashOp::Reg(RegOp::Write { addr: CTRL, value: 0 }),
        FlashOp::Reg(RegOp::Write { addr: ADDR, value: erase_address(addr) }),
    ] + commanding(CMD_FLASH_SE);
    let last = seq![FlashOp::AwaitTraced { slot: 3, unread: ERASE_UNREAD }];
    let none = Seq::<FlashOp>::empty();
    assert(untraced(none) == none);
    lemma_untraced_same(a);
    lemma_untraced_same(b);
    lemma_untraced_same(c);
    assert forall|slot: usize| #[trigger] untraced(tracing(slot, true)) == none by {
        assert(tracing(slot, true).drop_last() =~= none);
        assert(untraced(tracing(slot, true)) =~= none);
    }
    assert(last.drop_last() =~= none);
    assert(untraced(last) =~= awaiting());
    let ab = a + tracing(0, true) + b + tracing(1, true);
    lemma_untraced_append(a, tracing(0, true));
    lemma_untraced_append(a + tracing(0, true), b);
    lemma_untraced_append(a + tracing(0, true) + b, tracing(1, true));
    lemma_untraced_append(ab, c);
    lemma_untraced_append(ab + c, tracing(2, true));
    lemma_untraced_append(ab + c + tracing(2, true), last);
    assert(erasing(addr, true) =~= ab + c + tracing(2, true) + last);
    assert(erasing(addr, false) =~= a + b + c + awaiting());
    assert(untraced(erasing(addr, true)) =~= a + b + c + awaiting());
}

/// The script that reads `total` words at an address.
pub fn read(addr: u32, total: usize) -> (ops: Vec<FlashOp>)
    requires
        addr + 4 * total <= u32::MAX,
    ensures
        ops@ == reading(addr, total as int),
{
    let mut ops: Vec<FlashOp> = exit_continuous_read();
    wait_ready(&mut ops);
    ops.push(FlashOp::Reg(RegOp::Write { addr: USER, value: 0 }));
    ops.push(FlashOp::Reg(RegOp::Write { addr: CTRL, value: 0 }));
    ops.push(
        FlashOp::Reg(
            RegOp::Update {
                addr: USER1,
                clear: (0x3Fu32 << ADDR_BITLEN_SHIFT) | DUMMY_CYCLELEN_MASK,
                set: ((ADDR_BITS - 1) << ADDR_BITLEN_SHIFT) | (EXTRA_DUMMY - 1),
            },
        ),
    );
    ops.push(FlashOp::Reg(RegOp::Write { addr: USER2, value: COMMAND_BITLEN_8 | OPCODE_READ }));
    ops.push(
        FlashOp::Reg(
            RegOp::Write { addr: USER, value: USR_COMMAND | USR_ADDR | USR_MISO | USR_DUMMY },
        ),
    );
    let ghost start = leaving_continuous_read() + awaiting() + shaping_read();
    let ghost all = read_spans(0, total as int);
    let ghost mut gone: Seq<Span> = Seq::empty();
    assert(ops@ =~= start + fetching_all(addr, gone));
    assert(gone + all =~= all);
    let mut done: usize = 0;
    while done < total
        invariant
            addr + 4 * total <= u32::MAX,
            done <= total,
            all == read_spans(0, total as int),
            gone + read_spans(done as int, total as int) == all,
            ops@ == start + fetching_all(addr, gone),
        decreases total - done,
    {
        let n: usize = if total - done < BUFFER_WORDS {
            total - done
        } else {
            BUFFER_WORDS
        };
        let ghost before = ops@;
        let at: u32 = addr + done as u32 * 4;
        ops.push(
            FlashOp::Reg(RegOp::Write { addr: ADDR, value: (at & ADDRESS_MASK_24BIT) << 8 }),
        );
        ops.push(FlashOp::Reg(RegOp::Write { addr: MISO_DLEN, value: (n as u32 * 4) * 8 - 1 }));
        command(&mut ops, CMD_USR);
        ops.push(FlashOp::Fetch { at: done, n });
        proof {
            let s = Span { at: done, n };
            let next = gone.push(s);
            assert(ops@ =~= before + fetching(addr, s));
            assert(next.drop_last() =~= gone);
            assert(ops@ =~= start + fetching_all(addr, next));
            assert(next + read_spans(done + n, total as int) =~= gone + read_spans(
                done as int,
                total as int,
            ));
            gone = next;
        }
        done = done + n;
    }
    assert(gone =~= all);
    ops
}

/// One go more of a program.
proof fn lemma_program_go(addr: u32, data: Seq<u32>, gone: Seq<Span>, s: Span)
    requires
        0 <= s.at < data.len(),
        s.n == program_step(addr as int, s.at as int, data.len() as int),
        s.n > 0,
    ensures
        programming_all(addr, data, gone.push(s)) == programming_all(addr, data, gone)
            + programming(addr, data, s),
        gone.push(s) + program_spans(addr as int, s.at + s.n, data.len() as int) == gone
            + program_spans(addr as int, s.at as int, data.len() as int),
{
    assert(gone.push(s).drop_last() =~= gone);
    assert(gone.push(s) + program_spans(addr as int, s.at + s.n, data.len() as int) =~= gone
        + program_spans(addr as int, s.at as int, data.len() as int));
}

/// Appends the lines that program the `n` words of `data` from word `at` on.
fn program_go(ops: &mut Vec<FlashOp>, addr: u32, data: &[u32], at: usize, n: usize)
    requires
        0 < n <= BUFFER_WORDS,
        at + n <= data@.len(),
        addr + 4 * data@.len() <= u32::MAX,
    ensures
        final(ops)@ == old(ops)@ + programming(addr, data@, Span { at, n }),
{
    let ghost before = ops@;
    wait_ready(ops);
    command(ops, CMD_FLASH_WREN);
    set_addr_bitlen_24(ops);
    ops.push(FlashOp::Reg(RegOp::Update { addr: USER, clear: USR_DUMMY, set: 0 }));
    let to: u32 = addr + at as u32 * 4;
    ops.push(
        FlashOp::Reg(
            RegOp::Write {
                addr: ADDR,
                value: (to & ADDRESS_MASK_24BIT) | ((n as u32 * 4) << 24),
            },
        ),
    );
    let ghost framed = ops@;
    let ghost words = data@.subrange(at as int, at + n);
    let len: usize = data.len();
    for i in 0..n
        invariant
            n <= BUFFER_WORDS,
            at + n <= len,
            len == data@.len(),
            words == data@.subrange(at as int, at + n),
            ops@ =~= framed + buffering(words).take(i as int),
    {
        ops.push(FlashOp::Reg(RegOp::Write { addr: W0 + i as u32 * 4, value: data[at + i] }));
    }
    assert(buffering(words).take(n as int) =~= buffering(words));
    command(ops, CMD_FLASH_PP);
    assert(ops@ =~= before + programming(addr, data@, Span { at, n }));
}

/// The script that programs words at an address, which has to be erased there.
#[verifier::spinoff_prover]
#[verifier::rlimit(60)]
pub fn write(addr: u32, data: &[u32]) -> (ops: Vec<FlashOp>)
    requires
        addr % 4 == 0,
        addr + 4 * data@.len() <= u32::MAX,
    ensures
        ops@ == writing(addr, data@),
{
    let total: usize = data.len();
    let mut ops: Vec<FlashOp> = exit_continuous_read();
    ops.push(FlashOp::Unlock);
    let ghost start = leaving_continuous_read() + seq![FlashOp::Unlock];
    let ghost all = program_spans(addr as int, 0, total as int);
    let ghost mut gone: Seq<Span> = Seq::empty();
    assert(ops@ =~= start + programming_all(addr, data@, gone));
    assert(gone + all =~= all);
    let mut done: usize = 0;
    while done < total
        invariant
            addr % 4 == 0,
            addr + 4 * total <= u32::MAX,
            done <= total,
            total == data@.len(),
            all == program_spans(addr as int, 0, total as int),
            gone + program_spans(addr as int, done as int, total as int) == all,
            ops@ == start + programming_all(addr, data@, gone),
        decreases total - done,
    {
        let at: u32 = addr + done as u32 * 4;
        let to_page_end: u32 = (PAGE_SIZE - (at % PAGE_SIZE)) / 4;
        assert(to_page_end > 0) by {
            assert(at % 4 == 0);
        }
        let mut n: usize = if total - done < BUFFER_WORDS {
            total - done
        } else {
            BUFFER_WORDS
        };
        if n > to_page_end as usize {
            n = to_page_end as usize;
        }
        assert(n == program_step(addr as int, done as int, total as int));
        program_go(&mut ops, addr, data, done, n);
        proof {
            let s = Span { at: done, n };
            lemma_program_go(addr, data@, gone, s);
            assert(ops@ =~= start + programming_all(addr, data@, gone.push(s)));
            gone = gone.push(s);
        }
        done = done + n;
    }
    assert(gone =~= all);
    wait_ready(&mut ops);
    ops
}

/// Appends the lines that take a command's shape from the command alone.
fn set_addr_bitlen_24(ops: &mut Vec<FlashOp>)
    ensures
        final(ops)@ == old(ops)@ + shaping_native(),
{
    ops.push(FlashOp::Reg(RegOp::Write { addr: USER, value: 0 }));
    ops.push(FlashOp::Reg(RegOp::Write { addr: CTRL, value: 0 }));
    ops.push(FlashOp::Reg(RegOp::Update { addr: USER1, clear: DUMMY_CYCLELEN_MASK, set: 0 }));
    assert(ops@ =~= old(ops)@ + shaping_native());
}

/// Appends the line that leaves the status behind in the first erase.
fn trace(ops: &mut Vec<FlashOp>, slot: usize, first: bool)
    ensures
        final(ops)@ == old(ops)@ + tracing(slot, first),
{
    if first {
        ops.push(FlashOp::Trace { slot, unread: ERASE_UNREAD });
    }
    assert(ops@ =~= old(ops)@ + tracing(slot, first));
}

/// The script that erases the sector an address lies in, given whether it is the first,
/// which leaves the status behind at each step.
pub fn erase_sector(addr: u32, first: bool) -> (ops: Vec<FlashOp>)
    ensures
        ops@ == erasing(addr, first),
{
    let mut ops: Vec<FlashOp> = vec![FlashOp::Unlock];
    wait_ready(&mut ops);
    trace(&mut ops, 0, first);
    command(&mut ops, CMD_FLASH_WREN);
    trace(&mut ops, 1, first);
    set_addr_bitlen_24(&mut ops);
    ops.push(FlashOp::Reg(RegOp::Write { addr: CTRL, value: 0 }));
    ops.push(
        FlashOp::Reg(
            RegOp::Write { addr: ADDR, value: (addr & !0xFFFu32) & ADDRESS_MASK_24BIT },
        ),
    );
    command(&mut ops, CMD_FLASH_SE);
    trace(&mut ops, 2, first);
    if first {
        ops.push(FlashOp::AwaitTraced { slot: 3, unread: ERASE_UNREAD });
    } else {
        wait_ready(&mut ops);
    }
    assert(ops@ =~= erasing(addr, first));
    ops
}

} // verus!
