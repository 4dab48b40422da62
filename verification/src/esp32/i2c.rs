//! An I2C master, polled: each transfer is a list of commands that the controller
//! runs, and what it raises afterwards says how it went.

use vstd::prelude::*;

use super::{Admission, RegOp, APB_HZ};
use crate::bus::{BusConfig, BusError};

verus! {

pub const I2C0_BASE: u32 = 0x3FF5_3000;
pub const I2C1_BASE: u32 = 0x3FF6_7000;

pub const I2C_SCL_LOW: u32 = 0x00;
pub const I2C_CTR: u32 = 0x04;
pub const I2C_SR: u32 = 0x08;
pub const I2C_TOUT: u32 = 0x0C;
pub const I2C_SLAVE_ADDR: u32 = 0x10;
pub const I2C_RXFIFO_ST: u32 = 0x14;
pub const I2C_FIFO_CONF: u32 = 0x18;
pub const I2C_FIFO_DATA: u32 = 0x1C;
pub const I2C_INT_RAW: u32 = 0x20;
pub const I2C_INT_CLR: u32 = 0x24;
pub const I2C_INT_ENA: u32 = 0x28;
pub const I2C_INT_STATUS: u32 = 0x2C;
pub const I2C_SDA_HOLD: u32 = 0x30;
pub const I2C_SDA_SAMPLE_REG: u32 = 0x34;
pub const I2C_SCL_HIGH: u32 = 0x38;
pub const I2C_SCL_START_HOLD: u32 = 0x40;
pub const I2C_SCL_RSTART_SETUP: u32 = 0x44;
pub const I2C_SCL_STOP_HOLD: u32 = 0x48;
pub const I2C_SCL_STOP_SETUP: u32 = 0x4C;
pub const I2C_SCL_FILTER_CFG: u32 = 0x50;
pub const I2C_SDA_FILTER_CFG: u32 = 0x54;

/// Drive the two lines, without which a master is mute.
pub const I2C_SCL_FORCE_OUT: u32 = 1 << 1;
pub const I2C_SDA_FORCE_OUT: u32 = 1 << 0;

/// Ignore glitches shorter than the threshold in the bits below.
pub const I2C_FILTER_EN: u32 = 1 << 3;

/// The longest the bus may stand still; zero would be the shortest.
pub const I2C_TOUT_MAX: u32 = 0xF_FFFF;

/// The first command register; the others follow.
pub const I2C_COMD_BASE: u32 = 0x58;
pub const I2C_COMD_SLOTS: usize = 16;

pub const I2C_CMD_OP_RSTART: u32 = 0 << 11;
pub const I2C_CMD_OP_WRITE: u32 = 1 << 11;
pub const I2C_CMD_OP_READ: u32 = 2 << 11;
pub const I2C_CMD_OP_STOP: u32 = 3 << 11;
pub const I2C_CMD_OP_END: u32 = 4 << 11;
/// Refuse the byte, which ends a read.
pub const I2C_CMD_ACK_VALUE_NAK: u32 = 1 << 10;
/// Look at the acknowledgement, without which a deaf address seems to answer.
pub const I2C_CMD_ACK_CHECK_EN: u32 = 1 << 8;

/// The direction bit below the address.
pub const I2C_RW_WRITE: u32 = 0;
pub const I2C_RW_READ: u32 = 1;

pub const I2C_MS_MODE: u32 = 1 << 4;
pub const I2C_TRANS_START: u32 = 1 << 5;

pub const I2C_TRANS_COMPLETE: u32 = 1 << 7;
/// A byte was refused. The transfer completes all the same.
pub const I2C_ACK_ERR: u32 = 1 << 10;
/// A line was held too long.
pub const I2C_TIME_OUT: u32 = 1 << 8;
pub const I2C_ARB_LOST: u32 = 1 << 5;
pub const I2C_INT_ALL: u32 = I2C_TRANS_COMPLETE | I2C_ACK_ERR | I2C_TIME_OUT | I2C_ARB_LOST;

pub const I2C_TX_FIFO_RST: u32 = 1 << 13;
pub const I2C_RX_FIFO_RST: u32 = 1 << 12;

/// How many looks in vain a transfer is given.
pub const I2C_TIMEOUT_SPINS: u32 = 1_000_000;

/// Slots that frame a transfer: a start, the address, a stop.
pub const I2C_COMD_OVERHEAD: usize = 3;
/// The most bytes a transfer can carry, one command each.
pub const I2C_MAX_BYTES: usize = I2C_COMD_SLOTS - I2C_COMD_OVERHEAD;

/// The number of the controller at an address.
pub open spec fn instance_at(base: u32) -> Option<u8> {
    if base == I2C0_BASE {
        Some(0)
    } else if base == I2C1_BASE {
        Some(1)
    } else {
        None
    }
}

/// The number of the controller at an address.
pub fn i2c_instance(base: u32) -> (n: Option<u8>)
    ensures
        n == instance_at(base),
{
    if base == I2C0_BASE {
        Some(0)
    } else if base == I2C1_BASE {
        Some(1)
    } else {
        None
    }
}

/// Whether a bus may have these pads, given what the pin multiplexer says of each:
/// two different pads, and neither refused.
pub open spec fn pads_accepted(
    sda: u8,
    scl: u8,
    sda_routable: Result<(), BusError>,
    scl_routable: Result<(), BusError>,
) -> Result<(), BusError> {
    if sda == scl {
        Err(BusError::InvalidConfig)
    } else if sda_routable is Err {
        sda_routable
    } else {
        scl_routable
    }
}

/// Whether a bus may have these pads, given what the pin multiplexer says of each.
/// Both are judged before either is connected: half a bus is worse than none.
pub fn route_pins(
    sda: u8,
    scl: u8,
    sda_routable: Result<(), BusError>,
    scl_routable: Result<(), BusError>,
) -> (r: Result<(), BusError>)
    ensures
        r == pads_accepted(sda, scl, sda_routable, scl_routable),
{
    if sda == scl {
        return Err(BusError::InvalidConfig);
    }
    match sda_routable {
        Err(e) => Err(e),
        Ok(()) => scl_routable,
    }
}

/// A controller, and half a clock period in cycles of the peripheral clock.
#[derive(Clone, Copy, Debug, PartialEq, Eq, Structural)]
pub struct Esp32I2c {
    pub base: u32,
    pub half: u32,
}

/// How a transfer went, and what is written for it.
pub enum Wait {
    /// Not over: look again.
    Again,
    /// Over; perform these accesses.
    Over { result: Result<(), BusError>, ops: Vec<RegOp> },
}

/// A [`Wait`] with its accesses as a sequence.
pub enum WaitView {
    Again,
    Over { result: Result<(), BusError>, ops: Seq<RegOp> },
}

impl View for Wait {
    type V = WaitView;

    open spec fn view(&self) -> WaitView {
        match *self {
            Wait::Again => WaitView::Again,
            Wait::Over { result, ops } => WaitView::Over { result, ops: ops@ },
        }
    }
}

/// One transfer of an exchange: perform the accesses, wait for the end, then fetch
/// this many bytes from [`I2C_FIFO_DATA`].
pub struct Stage {
    pub ops: Vec<RegOp>,
    pub fetch: usize,
}

/// A [`Stage`] with its accesses as a sequence.
pub struct StageView {
    pub ops: Seq<RegOp>,
    pub fetch: usize,
}

impl View for Stage {
    type V = StageView;

    open spec fn view(&self) -> StageView {
        StageView { ops: self.ops@, fetch: self.fetch }
    }
}

/// What an exchange comes to: these transfers in order, each only if the one before
/// it succeeded, and then this result.
pub struct Exchange {
    pub stages: Vec<Stage>,
    pub result: Result<(), BusError>,
}

/// An [`Exchange`] with its transfers by their views.
pub struct ExchangeView {
    pub stages: Seq<StageView>,
    pub result: Result<(), BusError>,
}

impl View for Exchange {
    type V = ExchangeView;

    open spec fn view(&self) -> ExchangeView {
        ExchangeView {
            stages: self.stages@.map_values(|s: Stage| s@),
            result: self.result,
        }
    }
}

/// Half a period of a bus clock in cycles of the peripheral clock.
pub open spec fn half_period(hz: u32) -> int {
    super::larger((APB_HZ / hz) as int / 2, 10)
}

/// Writes a register.
pub open spec fn write(base: u32, offset: u32, value: u32) -> RegOp {
    RegOp::Write { addr: (base + offset) as u32, value }
}

/// Writes a command to a slot.
pub open spec fn command(base: u32, slot: int, word: u32) -> RegOp {
    RegOp::Write { addr: (base + I2C_COMD_BASE + 4 * slot) as u32, value: word }
}

/// The accesses that pulse both FIFOs through reset and forget what was raised.
pub open spec fn emptying(base: u32) -> Seq<RegOp> {
    let conf = (base + I2C_FIFO_CONF) as u32;
    let rst = I2C_TX_FIFO_RST | I2C_RX_FIFO_RST;
    seq![
        RegOp::Load { addr: conf },
        RegOp::Store { addr: conf, clear: rst, set: rst },
        RegOp::Store { addr: conf, clear: rst, set: 0 },
        write(base, I2C_INT_CLR, I2C_INT_ALL),
    ]
}

/// The accesses that program mode and timing from half a period.
pub open spec fn programming(base: u32, half: u32) -> Seq<RegOp> {
    let quarter = super::larger(half as int / 2, 1) as u32;
    seq![
        write(base, I2C_CTR, I2C_MS_MODE | I2C_SCL_FORCE_OUT | I2C_SDA_FORCE_OUT),
        write(base, I2C_FIFO_CONF, 0),
        write(base, I2C_SCL_LOW, half),
        write(base, I2C_SCL_HIGH, half),
        write(base, I2C_SDA_HOLD, quarter),
        write(base, I2C_SDA_SAMPLE_REG, quarter),
        write(base, I2C_SCL_START_HOLD, super::larger(half - 1, 1) as u32),
        write(base, I2C_SCL_RSTART_SETUP, half),
        write(base, I2C_SCL_STOP_HOLD, half),
        write(base, I2C_SCL_STOP_SETUP, half),
        write(base, I2C_SCL_FILTER_CFG, I2C_FILTER_EN | 7),
        write(base, I2C_SDA_FILTER_CFG, I2C_FILTER_EN | 7),
        write(base, I2C_TOUT, I2C_TOUT_MAX),
    ] + emptying(base)
}

/// The accesses that rebuild a controller after a failure: every command gone, the
/// clock cycled, everything programmed anew.
pub open spec fn rebuilding(base: u32, half: u32) -> Seq<RegOp> {
    Seq::new(I2C_COMD_SLOTS as nat, |i: int| command(base, i, 0)) + (if instance_at(
        base,
    ) is Some {
        seq![RegOp::Gate { base, on: false }, RegOp::Gate { base, on: true }]
    } else {
        Seq::empty()
    }) + programming(base, half)
}

/// Sends a byte from the FIFO and looks at its acknowledgement.
pub open spec fn send_command() -> u32 {
    I2C_CMD_OP_WRITE | I2C_CMD_ACK_CHECK_EN | 1
}

/// The address as it goes out, above the direction bit.
pub open spec fn address_byte(addr: u8, direction: u32) -> u32 {
    ((addr as u32) << 1) | direction
}

/// The accesses every transfer begins with: a start, and the address.
pub open spec fn opening(base: u32, addr: u8, direction: u32) -> Seq<RegOp> {
    emptying(base) + seq![
        command(base, 0, I2C_CMD_OP_RSTART),
        write(base, I2C_FIFO_DATA, address_byte(addr, direction)),
        command(base, 1, send_command()),
    ]
}

/// The accesses every transfer of `n` bytes ends with: a stop, and off it goes.
pub open spec fn closing(base: u32, n: int) -> Seq<RegOp> {
    seq![
        command(base, 2 + n, I2C_CMD_OP_STOP),
        RegOp::Update { addr: (base + I2C_CTR) as u32, clear: 0, set: I2C_TRANS_START },
    ]
}

/// The accesses that queue bytes, each with its command.
pub open spec fn queueing(base: u32, data: Seq<u8>) -> Seq<RegOp>
    decreases data.len(),
{
    if data.len() == 0 {
        Seq::empty()
    } else {
        queueing(base, data.drop_last()) + seq![
            write(base, I2C_FIFO_DATA, data.last() as u32),
            command(base, 1 + data.len() as int, send_command()),
        ]
    }
}

/// The command for byte `i` of a read of `n`: the last one is refused.
pub open spec fn receive_command(i: int, n: int) -> u32 {
    if i == n - 1 {
        (I2C_CMD_OP_READ | 1) | I2C_CMD_ACK_VALUE_NAK
    } else {
        I2C_CMD_OP_READ | 1
    }
}

/// The accesses of a write.
pub open spec fn writing(base: u32, addr: u8, data: Seq<u8>) -> Seq<RegOp> {
    opening(base, addr, I2C_RW_WRITE) + queueing(base, data) + closing(base, data.len() as int)
}

/// The accesses of a read.
pub open spec fn reading(base: u32, addr: u8, n: int) -> Seq<RegOp> {
    opening(base, addr, I2C_RW_READ) + Seq::new(
        n as nat,
        |i: int| command(base, 2 + i, receive_command(i, n)),
    ) + closing(base, n)
}

/// How the raised bits end a transfer, worst first; `None` where they do not.
pub open spec fn outcome(raw: u32) -> Option<Result<(), BusError>> {
    if raw & I2C_ACK_ERR != 0 {
        Some(Err(BusError::DeviceNotResponding))
    } else if raw & I2C_TIME_OUT != 0 {
        Some(Err(BusError::Timeout))
    } else if raw & I2C_ARB_LOST != 0 {
        Some(Err(BusError::Busy))
    } else if raw & I2C_TRANS_COMPLETE != 0 {
        Some(Ok(()))
    } else {
        None
    }
}

/// How an exchange goes: the first byte names the device, the rest is written, the
/// reply is read.
pub open spec fn exchanging(base: u32, tx: Seq<u8>, room: int) -> ExchangeView {
    let refused = ExchangeView {
        stages: Seq::empty(),
        result: Err::<(), BusError>(BusError::InvalidConfig),
    };
    if tx.len() == 0 {
        refused
    } else {
        let data = tx.skip(1);
        let out = StageView { ops: writing(base, tx[0], data), fetch: 0 };
        let back = StageView { ops: reading(base, tx[0], room), fetch: room as usize };
        if data.len() > 0 || room == 0 {
            if data.len() > I2C_MAX_BYTES {
                refused
            } else if room == 0 {
                ExchangeView { stages: seq![out], result: Ok(()) }
            } else if room > I2C_MAX_BYTES {
                ExchangeView { stages: seq![out], ..refused }
            } else {
                ExchangeView { stages: seq![out, back], result: Ok(()) }
            }
        } else if room > I2C_MAX_BYTES {
            refused
        } else {
            ExchangeView { stages: seq![back], result: Ok(()) }
        }
    }
}

/// How a wait goes on, by what is raised after `spins` looks in vain.
pub open spec fn waited(base: u32, half: u32, raw: u32, spins: u32) -> WaitView {
    match outcome(raw) {
        Some(Ok(())) => WaitView::Over {
            result: Ok(()),
            ops: seq![write(base, I2C_INT_CLR, I2C_INT_ALL)],
        },
        Some(Err(e)) => WaitView::Over { result: Err(e), ops: rebuilding(base, half) },
        None => if spins >= I2C_TIMEOUT_SPINS {
            WaitView::Over { result: Err(BusError::Timeout), ops: rebuilding(base, half) }
        } else {
            WaitView::Again
        },
    }
}

/// How the controller at an address answers a request to come up.
pub open spec fn admitted(
    base: u32,
    config: BusConfig,
    sda_routable: Result<(), BusError>,
    scl_routable: Result<(), BusError>,
) -> Admission {
    match config {
        BusConfig::I2c(c) if instance_at(base) is Some => Admission {
            clock: true,
            result: pads_accepted(c.sda, c.scl, sda_routable, scl_routable),
        },
        _ => Admission { clock: false, result: Err(BusError::InvalidConfig) },
    }
}

impl Esp32I2c {
    /// The registers lie within the address space.
    pub open spec fn wf(&self) -> bool {
        self.base + I2C_COMD_BASE + 4 * I2C_COMD_SLOTS <= u32::MAX
    }

    /// A driver of the controller at an address.
    pub fn new(base_addr: u32) -> (c: Self)
        ensures
            c == (Esp32I2c { base: base_addr, half: 0 }),
    {
        Esp32I2c { base: base_addr, half: 0 }
    }

    fn reg(&self, offset: u32, value: u32) -> (op: RegOp)
        requires
            self.base + offset <= u32::MAX,
        ensures
            op == write(self.base, offset, value),
    {
        RegOp::Write { addr: self.base + offset, value }
    }

    fn slot(&self, slot: usize, word: u32) -> (op: RegOp)
        requires
            self.wf(),
            slot < I2C_COMD_SLOTS,
        ensures
            op == command(self.base, slot as int, word),
    {
        RegOp::Write { addr: self.base + I2C_COMD_BASE + 4 * slot as u32, value: word }
    }

    fn reset_fifo(&self) -> (ops: Vec<RegOp>)
        requires
            self.wf(),
        ensures
            ops@ == emptying(self.base),
    {
        let conf: u32 = self.base + I2C_FIFO_CONF;
        let rst: u32 = I2C_TX_FIFO_RST | I2C_RX_FIFO_RST;
        let ops: Vec<RegOp> = vec![
            RegOp::Load { addr: conf },
            RegOp::Store { addr: conf, clear: rst, set: rst },
            RegOp::Store { addr: conf, clear: rst, set: 0 },
            self.reg(I2C_INT_CLR, I2C_INT_ALL),
        ];
        assert(ops@ =~= emptying(self.base));
        ops
    }

    /// Programs mode and timing from the half period.
    pub fn program(&self) -> (ops: Vec<RegOp>)
        requires
            self.wf(),
        ensures
            ops@ == programming(self.base, self.half),
    {
        let half: u32 = self.half;
        let quarter: u32 = if half / 2 < 1 {
            1
        } else {
            half / 2
        };
        let start: u32 = if half < 2 {
            1
        } else {
            half - 1
        };
        let mut ops: Vec<RegOp> = vec![
            self.reg(I2C_CTR, I2C_MS_MODE | I2C_SCL_FORCE_OUT | I2C_SDA_FORCE_OUT),
            self.reg(I2C_FIFO_CONF, 0),
            self.reg(I2C_SCL_LOW, half),
            self.reg(I2C_SCL_HIGH, half),
            self.reg(I2C_SDA_HOLD, quarter),
            self.reg(I2C_SDA_SAMPLE_REG, quarter),
            self.reg(I2C_SCL_START_HOLD, start),
            self.reg(I2C_SCL_RSTART_SETUP, half),
            self.reg(I2C_SCL_STOP_HOLD, half),
            self.reg(I2C_SCL_STOP_SETUP, half),
            self.reg(I2C_SCL_FILTER_CFG, I2C_FILTER_EN | 7),
            self.reg(I2C_SDA_FILTER_CFG, I2C_FILTER_EN | 7),
            self.reg(I2C_TOUT, I2C_TOUT_MAX),
        ];
        let mut rest: Vec<RegOp> = self.reset_fifo();
        ops.append(&mut rest);
        assert(ops@ =~= programming(self.base, self.half));
        ops
    }

    /// Rebuilds the controller after a failed transfer, which it does not unwind by
    /// itself.
    pub fn recover(&self) -> (ops: Vec<RegOp>)
        requires
            self.wf(),
        ensures
            ops@ == rebuilding(self.base, self.half),
    {
        let ghost base = self.base;
        let mut ops: Vec<RegOp> = Vec::new();
        for i in 0..I2C_COMD_SLOTS
            invariant
                self.wf(),
                base == self.base,
                ops@ == Seq::new(i as nat, |k: int| command(base, k, 0)),
        {
            ops.push(self.slot(i, 0));
            assert(ops@ =~= Seq::new((i + 1) as nat, |k: int| command(base, k, 0)));
        }
        if i2c_instance(self.base).is_some() {
            ops.push(RegOp::Gate { base: self.base, on: false });
            ops.push(RegOp::Gate { base: self.base, on: true });
        }
        let mut rest: Vec<RegOp> = self.program();
        ops.append(&mut rest);
        assert(ops@ =~= rebuilding(self.base, self.half));
        ops
    }

    /// Whether the controller can come up as asked. Where it can, route both pads
    /// open-drain with a pull-up and go on with [`Esp32I2c::set_clock`].
    pub fn init(
        &self,
        config: &BusConfig,
        sda_routable: Result<(), BusError>,
        scl_routable: Result<(), BusError>,
    ) -> (a: Admission)
        ensures
            a == admitted(self.base, *config, sda_routable, scl_routable),
    {
        match config {
            BusConfig::I2c(c) => {
                if i2c_instance(self.base).is_none() {
                    return Admission { clock: false, result: Err(BusError::InvalidConfig) };
                }
                Admission {
                    clock: true,
                    result: route_pins(c.sda, c.scl, sda_routable, scl_routable),
                }
            },
            _ => Admission { clock: false, result: Err(BusError::InvalidConfig) },
        }
    }

    /// Takes a bus clock, at most a twentieth of the peripheral clock, and programs
    /// it.
    pub fn set_clock(&mut self, hz: u32) -> (ops: Vec<RegOp>)
        requires
            old(self).wf(),
            hz > 0,
        ensures
            *final(self) == (Esp32I2c {
                half: half_period(hz) as u32,
                ..*old(self)
            }),
            ops@ == programming(final(self).base, final(self).half),
    {
        let half: u32 = APB_HZ / hz / 2;
        self.half = if half < 10 {
            10
        } else {
            half
        };
        self.program()
    }

    fn open(&self, addr: u8, direction: u32) -> (ops: Vec<RegOp>)
        requires
            self.wf(),
        ensures
            ops@ == opening(self.base, addr, direction),
    {
        let mut ops: Vec<RegOp> = self.reset_fifo();
        ops.push(self.slot(0, I2C_CMD_OP_RSTART));
        ops.push(self.reg(I2C_FIFO_DATA, ((addr as u32) << 1) | direction));
        ops.push(self.slot(1, I2C_CMD_OP_WRITE | I2C_CMD_ACK_CHECK_EN | 1));
        assert(ops@ =~= opening(self.base, addr, direction));
        ops
    }

    fn close(&self, n: usize, ops: &mut Vec<RegOp>)
        requires
            self.wf(),
            n <= I2C_MAX_BYTES,
        ensures
            final(ops)@ == old(ops)@ + closing(self.base, n as int),
    {
        ops.push(self.slot(2 + n, I2C_CMD_OP_STOP));
        ops.push(RegOp::Update { addr: self.base + I2C_CTR, clear: 0, set: I2C_TRANS_START });
        assert(ops@ =~= old(ops)@ + closing(self.base, n as int));
    }

    /// Starts a write of bytes to a device; [`Esp32I2c::wait_done`] says how it went.
    pub fn write(&self, addr: u8, data: &[u8]) -> (r: Result<Vec<RegOp>, BusError>)
        requires
            self.wf(),
        ensures
            match r {
                Err(e) => data@.len() > I2C_MAX_BYTES && e is InvalidConfig,
                Ok(ops) => data@.len() <= I2C_MAX_BYTES && ops@ == writing(
                    self.base,
                    addr,
                    data@,
                ),
            },
    {
        let n: usize = data.len();
        if n > I2C_MAX_BYTES {
            return Err(BusError::InvalidConfig);
        }
        let mut ops: Vec<RegOp> = self.open(addr, I2C_RW_WRITE);
        let ghost start = ops@;
        assert(ops@ =~= start + queueing(self.base, data@.take(0)));
        for i in 0..n
            invariant
                self.wf(),
                n == data@.len(),
                n <= I2C_MAX_BYTES,
                ops@ == start + queueing(self.base, data@.take(i as int)),
        {
            ops.push(self.reg(I2C_FIFO_DATA, data[i] as u32));
            ops.push(self.slot(2 + i, I2C_CMD_OP_WRITE | I2C_CMD_ACK_CHECK_EN | 1));
            assert(data@.take(i + 1).drop_last() =~= data@.take(i as int));
            assert(ops@ =~= start + queueing(self.base, data@.take(i + 1)));
        }
        assert(data@.take(n as int) =~= data@);
        self.close(n, &mut ops);
        Ok(ops)
    }

    /// Starts a read of `len` bytes from a device; [`Esp32I2c::wait_done`] says how it
    /// went, and [`received`] takes the bytes. A read of nothing is over at once.
    pub fn read(&self, addr: u8, len: usize) -> (r: Result<Vec<RegOp>, BusError>)
        requires
            self.wf(),
        ensures
            match r {
                Err(e) => len > I2C_MAX_BYTES && e is InvalidConfig,
                Ok(ops) => len <= I2C_MAX_BYTES && ops@ == if len == 0 {
                    Seq::<RegOp>::empty()
                } else {
                    reading(self.base, addr, len as int)
                },
            },
    {
        if len > I2C_MAX_BYTES {
            return Err(BusError::InvalidConfig);
        }
        if len == 0 {
            return Ok(Vec::new());
        }
        let mut ops: Vec<RegOp> = self.open(addr, I2C_RW_READ);
        let ghost start = ops@;
        let ghost base = self.base;
        for i in 0..len
            invariant
                self.wf(),
                base == self.base,
                len <= I2C_MAX_BYTES,
                ops@ =~= start + Seq::new(
                    i as nat,
                    |k: int| command(base, 2 + k, receive_command(k, len as int)),
                ),
        {
            let word: u32 = if i == len - 1 {
                (I2C_CMD_OP_READ | 1) | I2C_CMD_ACK_VALUE_NAK
            } else {
                I2C_CMD_OP_READ | 1
            };
            ops.push(self.slot(2 + i, word));
        }
        self.close(len, &mut ops);
        Ok(ops)
    }

    /// Judges a transfer by what is raised after `spins` looks in vain. A refused
    /// byte completes the transfer like any other, so completion comes last.
    pub fn wait_done(&self, raw: u32, spins: u32) -> (w: Wait)
        requires
            self.wf(),
        ensures
            w@ == waited(self.base, self.half, raw, spins),
    {
        if raw & I2C_ACK_ERR != 0 {
            return Wait::Over {
                result: Err(BusError::DeviceNotResponding),
                ops: self.recover(),
            };
        }
        if raw & I2C_TIME_OUT != 0 {
            return Wait::Over { result: Err(BusError::Timeout), ops: self.recover() };
        }
        if raw & I2C_ARB_LOST != 0 {
            return Wait::Over { result: Err(BusError::Busy), ops: self.recover() };
        }
        if raw & I2C_TRANS_COMPLETE != 0 {
            let ops: Vec<RegOp> = vec![self.reg(I2C_INT_CLR, I2C_INT_ALL)];
            assert(ops@ =~= seq![write(self.base, I2C_INT_CLR, I2C_INT_ALL)]);
            return Wait::Over { result: Ok(()), ops };
        }
        if spins >= I2C_TIMEOUT_SPINS {
            return Wait::Over { result: Err(BusError::Timeout), ops: self.recover() };
        }
        Wait::Again
    }

    /// An exchange with the device that the first byte names, by its address as it
    /// is, not shifted: the rest of `tx` is written, then `room` bytes are read.
    pub fn exchange(&self, tx: &[u8], room: usize) -> (e: Exchange)
        requires
            self.wf(),
        ensures
            e@ == exchanging(self.base, tx@, room as int),
    {
        let n: usize = tx.len();
        let mut stages: Vec<Stage> = Vec::new();
        assert(stages@.map_values(|s: Stage| s@) =~= Seq::<StageView>::empty());
        if n == 0 {
            return Exchange { stages, result: Err(BusError::InvalidConfig) };
        }
        let addr: u8 = tx[0];
        if n > 1 || room == 0 {
            let data: &[u8] = &tx[1..n];
            assert(data@ =~= tx@.skip(1));
            match self.write(addr, data) {
                Ok(ops) => {
                    stages.push(Stage { ops, fetch: 0 });
                },
                Err(e) => {
                    return Exchange { stages, result: Err(e) };
                },
            }
            assert(stages@.map_values(|s: Stage| s@) =~= seq![
                StageView { ops: writing(self.base, addr, tx@.skip(1)), fetch: 0 },
            ]);
        }
        if room > 0 {
            match self.read(addr, room) {
                Ok(ops) => {
                    stages.push(Stage { ops, fetch: room });
                },
                Err(e) => {
                    return Exchange { stages, result: Err(e) };
                },
            }
        }
        let e: Exchange = Exchange { stages, result: Ok(()) };
        assert(e@.stages =~= exchanging(self.base, tx@, room as int).stages);
        e
    }
}

/// The low byte of each word.
pub open spec fn low_bytes(words: Seq<u32>) -> Seq<u8> {
    words.map_values(|w: u32| (w & 0xFF) as u8)
}

/// The bytes that came back, each from the low end of a word of
/// [`I2C_FIFO_DATA`].
pub fn received(words: &[u32], buf: &mut [u8])
    requires
        words@.len() == old(buf)@.len(),
    ensures
        final(buf)@ == low_bytes(words@),
{
    let n: usize = words.len();
    for i in 0..n
        invariant
            n == words@.len(),
            n == buf@.len(),
            forall|k: int| 0 <= k < i ==> buf@[k] == (words@[k] & 0xFF) as u8,
    {
        buf[i] = (words[i] & 0xFF) as u8;
    }
    assert(buf@ =~= low_bytes(words@));
}

/// Every access to a command register by a list, in order.
pub open spec fn commands(base: u32, ops: Seq<RegOp>) -> Seq<RegOp>
    decreases ops.len(),
{
    if ops.len() == 0 {
        Seq::empty()
    } else {
        let rest = commands(base, ops.drop_last());
        match ops.last() {
            RegOp::Write { addr, value } if addr >= base + I2C_COMD_BASE => rest.push(ops.last()),
            _ => rest,
        }
    }
}

proof fn lemma_commands_append(base: u32, a: Seq<RegOp>, b: Seq<RegOp>)
    ensures
        commands(base, a + b) == commands(base, a) + commands(base, b),
    decreases b.len(),
{
    if b.len() == 0 {
        assert(a + b =~= a);
    } else {
        assert((a + b).drop_last() =~= a + b.drop_last());
        lemma_commands_append(base, a, b.drop_last());
        assert(commands(base, a + b) =~= commands(base, a) + commands(base, b));
    }
}

proof fn lemma_commands_of_queueing(base: u32, data: Seq<u8>)
    requires
        data.len() <= I2C_MAX_BYTES,
        base + I2C_COMD_BASE + 4 * I2C_COMD_SLOTS <= u32::MAX,
    ensures
        commands(base, queueing(base, data)) == Seq::new(
            data.len(),
            |i: int| command(base, 2 + i, send_command()),
        ),
    decreases data.len(),
{
    let listed = Seq::new(data.len(), |i: int| command(base, 2 + i, send_command()));
    if data.len() == 0 {
        assert(commands(base, queueing(base, data)) =~= listed);
    } else {
        let tail = seq![
            write(base, I2C_FIFO_DATA, data.last() as u32),
            command(base, 1 + data.len() as int, send_command()),
        ];
        lemma_commands_of_queueing(base, data.drop_last());
        lemma_commands_append(base, queueing(base, data.drop_last()), tail);
        reveal_with_fuel(commands, 3);
        assert(tail.drop_last().drop_last() =~= Seq::empty());
        assert(commands(base, tail) =~= seq![tail[1]]);
        assert(commands(base, queueing(base, data)) =~= listed);
    }
}

proof fn lemma_commands_of_frame(base: u32, addr: u8, direction: u32, n: int)
    requires
        0 <= n <= I2C_MAX_BYTES,
        base + I2C_COMD_BASE + 4 * I2C_COMD_SLOTS <= u32::MAX,
    ensures
        commands(base, opening(base, addr, direction)) == seq![
            command(base, 0, I2C_CMD_OP_RSTART),
            command(base, 1, send_command()),
        ],
        commands(base, closing(base, n)) == seq![command(base, 2 + n, I2C_CMD_OP_STOP)],
{
    reveal_with_fuel(commands, 8);
    let o = opening(base, addr, direction);
    assert(o.drop_last().drop_last().drop_last().drop_last().drop_last().drop_last().drop_last()
        =~= Seq::empty());
    assert(commands(base, o) =~= seq![
        command(base, 0, I2C_CMD_OP_RSTART),
        command(base, 1, send_command()),
    ]);
    let c = closing(base, n);
    assert(c.drop_last().drop_last() =~= Seq::empty());
    assert(commands(base, c) =~= seq![command(base, 2 + n, I2C_CMD_OP_STOP)]);
}

/// A write fills the command registers from the first on, one after the other: a
/// start, an acknowledged byte for the address and for each byte of data, and a stop
/// that still has a register to go to.
pub proof fn law_a_write_is_framed(base: u32, addr: u8, data: Seq<u8>)
    requires
        data.len() <= I2C_MAX_BYTES,
        base + I2C_COMD_BASE + 4 * I2C_COMD_SLOTS <= u32::MAX,
    ensures
        commands(base, writing(base, addr, data)) == Seq::new(
            data.len() + I2C_COMD_OVERHEAD as nat,
            |i: int|
                command(
                    base,
                    i,
                    if i == 0 {
                        I2C_CMD_OP_RSTART
                    } else if i < data.len() + 2 {
                        send_command()
                    } else {
                        I2C_CMD_OP_STOP
                    },
                ),
        ),
        data.len() + I2C_COMD_OVERHEAD <= I2C_COMD_SLOTS,
{
    let n = data.len() as int;
    let o = opening(base, addr, I2C_RW_WRITE);
    lemma_commands_of_frame(base, addr, I2C_RW_WRITE, n);
    lemma_commands_of_queueing(base, data);
    lemma_commands_append(base, o, queueing(base, data));
    lemma_commands_append(base, o + queueing(base, data), closing(base, n));
    assert(commands(base, writing(base, addr, data)) =~= Seq::new(
        data.len() + I2C_COMD_OVERHEAD as nat,
        |i: int|
            command(
                base,
                i,
                if i == 0 {
                    I2C_CMD_OP_RSTART
                } else if i < data.len() + 2 {
                    send_command()
                } else {
                    I2C_CMD_OP_STOP
                },
            ),
    ));
}

proof fn lemma_commands_of_receiving(base: u32, k: int, n: int)
    requires
        0 <= k <= n <= I2C_MAX_BYTES,
        base + I2C_COMD_BASE + 4 * I2C_COMD_SLOTS <= u32::MAX,
    ensures
        ({
            let list = Seq::new(
                k as nat,
                |i: int| command(base, 2 + i, receive_command(i, n)),
            );
            commands(base, list) == list
        }),
    decreases k,
{
    let list = Seq::new(k as nat, |i: int| command(base, 2 + i, receive_command(i, n)));
    if k > 0 {
        let shorter = Seq::new(
            (k - 1) as nat,
            |i: int| command(base, 2 + i, receive_command(i, n)),
        );
        lemma_commands_of_receiving(base, k - 1, n);
        assert(list.drop_last() =~= shorter);
        assert(commands(base, list) =~= list);
    } else {
        assert(commands(base, list) =~= list);
    }
}

/// A read fills the command registers from the first on: a start, an acknowledged
/// byte for the address, a byte received and acknowledged for each but the last,
/// which is refused, and a stop.
pub proof fn law_a_read_is_framed(base: u32, addr: u8, n: int)
    requires
        0 < n <= I2C_MAX_BYTES,
        base + I2C_COMD_BASE + 4 * I2C_COMD_SLOTS <= u32::MAX,
    ensures
        commands(base, reading(base, addr, n)) == Seq::new(
            (n + I2C_COMD_OVERHEAD) as nat,
            |i: int|
                command(
                    base,
                    i,
                    if i == 0 {
                        I2C_CMD_OP_RSTART
                    } else if i == 1 {
                        send_command()
                    } else if i < n + 2 {
                        receive_command(i - 2, n)
                    } else {
                        I2C_CMD_OP_STOP
                    },
                ),
        ),
        n + I2C_COMD_OVERHEAD <= I2C_COMD_SLOTS,
{
    let list = Seq::new(n as nat, |i: int| command(base, 2 + i, receive_command(i, n)));
    let o = opening(base, addr, I2C_RW_READ);
    lemma_commands_of_frame(base, addr, I2C_RW_READ, n);
    lemma_commands_of_receiving(base, n, n);
    lemma_commands_append(base, o, list);
    lemma_commands_append(base, o + list, closing(base, n));
    assert(commands(base, reading(base, addr, n)) =~= Seq::new(
        (n + I2C_COMD_OVERHEAD) as nat,
        |i: int|
            command(
                base,
                i,
                if i == 0 {
                    I2C_CMD_OP_RSTART
                } else if i == 1 {
                    send_command()
                } else if i < n + 2 {
                    receive_command(i - 2, n)
                } else {
                    I2C_CMD_OP_STOP
                },
            ),
    ));
}

/// A transfer that a device refused never counts as done, though the controller
/// reports it complete.
pub proof fn law_a_refused_byte_is_no_success(raw: u32)
    requires
        raw & I2C_ACK_ERR != 0,
    ensures
        outcome(raw) == Some(Err::<(), BusError>(BusError::DeviceNotResponding)),
{
}

/// The words that a list queues in the FIFO, in order.
pub open spec fn queued(base: u32, ops: Seq<RegOp>) -> Seq<u32>
    decreases ops.len(),
{
    if ops.len() == 0 {
        Seq::empty()
    } else {
        let rest = queued(base, ops.drop_last());
        match ops.last() {
            RegOp::Write { addr, value } if addr == base + 0x1C => rest.push(value),
            _ => rest,
        }
    }
}

proof fn lemma_queued_append(base: u32, a: Seq<RegOp>, b: Seq<RegOp>)
    ensures
        queued(base, a + b) == queued(base, a) + queued(base, b),
    decreases b.len(),
{
    if b.len() == 0 {
        assert(a + b =~= a);
    } else {
        assert((a + b).drop_last() =~= a + b.drop_last());
        lemma_queued_append(base, a, b.drop_last());
        assert(queued(base, a + b) =~= queued(base, a) + queued(base, b));
    }
}

proof fn lemma_queued_of_queueing(base: u32, data: Seq<u8>)
    requires
        data.len() <= I2C_MAX_BYTES,
        base + I2C_COMD_BASE + 4 * I2C_COMD_SLOTS <= u32::MAX,
    ensures
        queued(base, queueing(base, data)) == data.map_values(|b: u8| b as u32),
    decreases data.len(),
{
    if data.len() == 0 {
        assert(queued(base, queueing(base, data)) =~= data.map_values(|b: u8| b as u32));
    } else {
        let tail = seq![
            write(base, I2C_FIFO_DATA, data.last() as u32),
            command(base, 1 + data.len() as int, send_command()),
        ];
        lemma_queued_of_queueing(base, data.drop_last());
        lemma_queued_append(base, queueing(base, data.drop_last()), tail);
        reveal_with_fuel(queued, 3);
        assert(tail.drop_last().drop_last() =~= Seq::empty());
        assert(queued(base, tail) =~= seq![data.last() as u32]);
        assert(queued(base, queueing(base, data)) =~= data.map_values(|b: u8| b as u32));
    }
}

proof fn lemma_queued_of_frame(base: u32, addr: u8, direction: u32, n: int)
    requires
        0 <= n <= I2C_MAX_BYTES,
        base + I2C_COMD_BASE + 4 * I2C_COMD_SLOTS <= u32::MAX,
    ensures
        queued(base, opening(base, addr, direction)) == seq![address_byte(addr, direction)],
        queued(base, closing(base, n)) == Seq::<u32>::empty(),
{
    reveal_with_fuel(queued, 8);
    let o = opening(base, addr, direction);
    assert(o.drop_last().drop_last().drop_last().drop_last().drop_last().drop_last().drop_last()
        =~= Seq::empty());
    assert(queued(base, o) =~= seq![address_byte(addr, direction)]);
    let c = closing(base, n);
    assert(c.drop_last().drop_last() =~= Seq::empty());
    assert(queued(base, c) =~= Seq::<u32>::empty());
}

proof fn lemma_queued_of_receiving(base: u32, k: int, n: int)
    requires
        0 <= k <= n <= I2C_MAX_BYTES,
        base + I2C_COMD_BASE + 4 * I2C_COMD_SLOTS <= u32::MAX,
    ensures
        queued(
            base,
            Seq::new(k as nat, |i: int| command(base, 2 + i, receive_command(i, n))),
        ) == Seq::<u32>::empty(),
    decreases k,
{
    let list = Seq::new(k as nat, |i: int| command(base, 2 + i, receive_command(i, n)));
    if k > 0 {
        let shorter = Seq::new(
            (k - 1) as nat,
            |i: int| command(base, 2 + i, receive_command(i, n)),
        );
        lemma_queued_of_receiving(base, k - 1, n);
        assert(list.drop_last() =~= shorter);
    }
}

proof fn lemma_words(addr: u8, held: u32)
    by (bit_vector)
    ensures
        ((addr as u32) << 1) | 0 == 2 * addr,
        ((addr as u32) << 1) | 1 == 2 * addr + 1,
        0u32 << 11 == 0,
        (1u32 << 11) | (1u32 << 8) | 1 == 2305,
        (2u32 << 11) | 1 == 4097,
        ((2u32 << 11) | 1) | (1u32 << 10) == 5121,
        3u32 << 11 == 6144,
        1u32 << 5 == 32,
        1u32 << 7 == 0x80,
        1u32 << 8 == 0x100,
        1u32 << 10 == 0x400,
        ((held & 0xFF) as u8) == held % 256,
        ((1u32 << 4) | (1u32 << 1) | (1u32 << 0)) & 0x13 == 0x13,
        ((held & !((1u32 << 13) | (1u32 << 12))) | 0) & 0x3000 == 0,
        (1u32 << 7) | (1u32 << 10) | (1u32 << 8) | (1u32 << 5) == 0x5A0,
{
}

/// What appears on the two lines.
pub enum Symbol {
    Start,
    /// A byte from the FIFO, and whether its acknowledgement is looked at.
    Send { byte: int, checked: bool },
    /// A byte to the FIFO, and whether it is refused, which ends a read.
    Receive { refused: bool },
    Stop,
    Other,
}

/// What the controller makes of a command word when `sent` bytes have left the FIFO: an
/// operation from bit 11 on, what to do about acknowledgements, and a count of one.
pub open spec fn symbol(word: u32, fifo: Seq<u32>, sent: int) -> Symbol {
    let op = word / 2048 % 8;
    if op == 0 {
        Symbol::Start
    } else if op == 1 && word % 256 == 1 && 0 <= sent < fifo.len() {
        Symbol::Send { byte: fifo[sent] as int, checked: word / 256 % 2 == 1 }
    } else if op == 2 && word % 256 == 1 {
        Symbol::Receive { refused: word / 1024 % 2 == 1 }
    } else if op == 3 {
        Symbol::Stop
    } else {
        Symbol::Other
    }
}

/// How many of the first `k` commands send a byte.
pub open spec fn sent_by(words: Seq<u32>, k: int) -> int
    decreases k,
{
    if k <= 0 {
        0
    } else {
        sent_by(words, k - 1) + if words[k - 1] / 2048 % 8 == 1 {
            1int
        } else {
            0
        }
    }
}

/// The words in the command registers, which a list has to fill from the first on.
pub open spec fn command_words(base: u32, ops: Seq<RegOp>) -> Seq<u32> {
    Seq::new(
        commands(base, ops).len(),
        |i: int|
            match commands(base, ops)[i] {
                RegOp::Write { addr, value } if addr == base + 0x58 + 4 * i => value,
                _ => 0xFFFF_FFFFu32,
            },
    )
}

/// What a list has the controller put on the lines: its commands in order, fed from the
/// FIFO; nothing where it does not set the controller going at the end.
pub open spec fn on_the_wire(base: u32, ops: Seq<RegOp>) -> Seq<Symbol> {
    let words = command_words(base, ops);
    let fifo = queued(base, ops);
    if ops.len() > 0 && ops.last() == (RegOp::Update {
        addr: (base + 4) as u32,
        clear: 0,
        set: 32,
    }) {
        Seq::new(words.len(), |i: int| symbol(words[i], fifo, sent_by(words, i)))
    } else {
        Seq::empty()
    }
}

/// A write on the wire.
pub open spec fn wired_write(addr: u8, data: Seq<u8>) -> Seq<Symbol> {
    seq![Symbol::Start, Symbol::Send { byte: 2 * addr, checked: true }] + data.map_values(
        |b: u8| Symbol::Send { byte: b as int, checked: true },
    ) + seq![Symbol::Stop]
}

/// A read of `n` bytes on the wire.
pub open spec fn wired_read(addr: u8, n: int) -> Seq<Symbol> {
    seq![Symbol::Start, Symbol::Send { byte: 2 * addr + 1, checked: true }] + Seq::new(
        n as nat,
        |i: int| Symbol::Receive { refused: i == n - 1 },
    ) + seq![Symbol::Stop]
}

proof fn lemma_sent_by(words: Seq<u32>, k: int, n: int)
    requires
        0 <= k <= words.len(),
        n >= 1,
        forall|i: int|
            0 <= i < words.len() ==> ((#[trigger] words[i]) / 2048 % 8 == 1 <==> 1 <= i <= n),
    ensures
        sent_by(words, k) == if k <= 1 {
            0
        } else if k <= n + 1 {
            k - 1
        } else {
            n
        },
    decreases k,
{
    if k > 0 {
        lemma_sent_by(words, k - 1, n);
        assert((words[k - 1] / 2048 % 8 == 1) <==> 1 <= k - 1 <= n);
    }
}

/// A write appears on the wire as a start, the device's address with the direction bit
/// clear, every byte in order, each with its acknowledgement looked at, and a stop.
pub proof fn law_a_write_goes_to_its_device(base: u32, addr: u8, data: Seq<u8>)
    requires
        data.len() <= I2C_MAX_BYTES,
        base + I2C_COMD_BASE + 4 * I2C_COMD_SLOTS <= u32::MAX,
    ensures
        on_the_wire(base, writing(base, addr, data)) == wired_write(addr, data),
{
    let n = data.len() as int;
    let ops = writing(base, addr, data);
    let o = opening(base, addr, I2C_RW_WRITE);
    law_a_write_is_framed(base, addr, data);
    lemma_queued_of_frame(base, addr, I2C_RW_WRITE, n);
    lemma_queued_of_queueing(base, data);
    lemma_queued_append(base, o, queueing(base, data));
    lemma_queued_append(base, o + queueing(base, data), closing(base, n));
    lemma_words(addr, 0);
    let words = command_words(base, ops);
    let fifo = queued(base, ops);
    assert(fifo.len() == n + 1 && fifo[0] == 2 * addr);
    assert forall|i: int| 0 <= i < words.len() implies (#[trigger] words[i]) == (if i == 0 {
        0u32
    } else if i < n + 2 {
        2305u32
    } else {
        6144u32
    }) by {}
    assert(ops.last() == closing(base, n).last());
    assert forall|i: int| 0 <= i < words.len() implies #[trigger] on_the_wire(base, ops)[i]
        == wired_write(addr, data)[i] by {
        lemma_sent_by(words, i, n + 1);
    }
    assert(on_the_wire(base, ops) =~= wired_write(addr, data));
}

/// A read appears on the wire as a start, the device's address with the direction bit
/// set, as many bytes received as were asked for, only the last refused, and a stop.
pub proof fn law_a_read_comes_from_its_device(base: u32, addr: u8, n: int)
    requires
        0 < n <= I2C_MAX_BYTES,
        base + I2C_COMD_BASE + 4 * I2C_COMD_SLOTS <= u32::MAX,
    ensures
        on_the_wire(base, reading(base, addr, n)) == wired_read(addr, n),
{
    let ops = reading(base, addr, n);
    let list = Seq::new(n as nat, |i: int| command(base, 2 + i, receive_command(i, n)));
    let o = opening(base, addr, I2C_RW_READ);
    law_a_read_is_framed(base, addr, n);
    lemma_queued_of_frame(base, addr, I2C_RW_READ, n);
    lemma_queued_of_receiving(base, n, n);
    lemma_queued_append(base, o, list);
    lemma_queued_append(base, o + list, closing(base, n));
    lemma_words(addr, 0);
    let words = command_words(base, ops);
    let fifo = queued(base, ops);
    assert(fifo.len() == 1 && fifo[0] == 2 * addr + 1);
    assert forall|i: int| 0 <= i < words.len() implies (#[trigger] words[i]) == (if i == 0 {
        0u32
    } else if i == 1 {
        2305u32
    } else if i < n + 1 {
        4097u32
    } else if i == n + 1 {
        5121u32
    } else {
        6144u32
    }) by {}
    assert(ops.last() == closing(base, n).last());
    assert forall|i: int| 0 <= i < words.len() implies #[trigger] on_the_wire(base, ops)[i]
        == wired_read(addr, n)[i] by {
        lemma_sent_by(words, i, 1);
    }
    assert(on_the_wire(base, ops) =~= wired_read(addr, n));
}

/// An exchange talks to the device that its first byte names, in every stage: the rest
/// of what is to be sent is written to it, where there is any or nothing is to be read,
/// and then what is to be read is read from it and fetched.
pub proof fn law_an_exchange_stays_with_its_device(base: u32, tx: Seq<u8>, room: int)
    requires
        0 < tx.len() <= I2C_MAX_BYTES + 1,
        0 <= room <= I2C_MAX_BYTES,
        base + I2C_COMD_BASE + 4 * I2C_COMD_SLOTS <= u32::MAX,
    ensures
        ({
            let e = exchanging(base, tx, room);
            let writes = tx.len() > 1 || room == 0;
            let first = if writes { 1int } else { 0 };
            &&& e.result == Ok::<(), BusError>(())
            &&& e.stages.len() == first + if room > 0 {
                1int
            } else {
                0
            }
            &&& writes ==> on_the_wire(base, e.stages[0].ops) == wired_write(tx[0], tx.skip(1))
                && e.stages[0].fetch == 0
            &&& room > 0 ==> on_the_wire(base, e.stages[first].ops) == wired_read(tx[0], room)
                && e.stages[first].fetch == room
        }),
{
    if tx.len() > 1 || room == 0 {
        law_a_write_goes_to_its_device(base, tx[0], tx.skip(1));
    }
    if room > 0 {
        law_a_read_comes_from_its_device(base, tx[0], room);
    }
}

/// An exchange that does not fit the controller is refused, and nothing is read for it:
/// one without a device or with too much to send before anything goes out, one with too
/// much to read after what is to be sent.
pub proof fn law_an_exchange_that_does_not_fit_is_refused(base: u32, tx: Seq<u8>, room: int)
    requires
        room >= 0,
        tx.len() == 0 || tx.len() > I2C_MAX_BYTES + 1 || room > I2C_MAX_BYTES,
    ensures
        exchanging(base, tx, room).result == Err::<(), BusError>(BusError::InvalidConfig),
        forall|i: int|
            0 <= i < exchanging(base, tx, room).stages.len() ==> (#[trigger] exchanging(
                base,
                tx,
                room,
            ).stages[i]).fetch == 0,
        tx.len() <= 1 || tx.len() > I2C_MAX_BYTES + 1 ==> exchanging(base, tx, room).stages.len()
            == 0,
{
}

/// The clock that the bus is given is the one asked for, or the next slower one that half
/// periods of whole cycles allow; it is never faster, and never above the fastest.
pub proof fn law_the_bus_is_no_faster_than_asked(hz: u32)
    requires
        hz > 0,
    ensures
        half_period(hz) >= 10,
        hz > APB_HZ / 20 ==> half_period(hz) == 10,
        hz <= APB_HZ / 20 ==> ({
            let half = half_period(hz);
            &&& 2 * half * hz <= APB_HZ
            &&& APB_HZ < 2 * (half + 1) * hz
        }),
{
    let q = (APB_HZ / hz) as int;
    let half = half_period(hz);
    let h = hz as int;
    let a = APB_HZ as int;
    assert(q * h <= a && a < (q + 1) * h) by (nonlinear_arith)
        requires
            q == a / h,
            h > 0,
            a >= 0,
    ;
    if h <= a / 20 {
        assert(q >= 20) by (nonlinear_arith)
            requires
                a < (q + 1) * h,
                20 * h <= a,
                h > 0,
        ;
    } else {
        assert(q < 20) by (nonlinear_arith)
            requires
                q * h <= a,
                20 * h > a,
                h > 0,
        ;
    }
    let half = q / 2;
    assert(2 * half * h <= q * h && (q + 1) * h <= 2 * (half + 1) * h) by (nonlinear_arith)
        requires
            2 * half <= q,
            q + 1 <= 2 * (half + 1),
            h > 0,
    ;
}

/// Once a controller is programmed it is the master, drives both lines, keeps the clock
/// low and high for half a period each, and has nothing in its FIFOs' way.
pub proof fn law_a_programmed_controller_keeps_the_clock(
    r: super::Registers,
    base: u32,
    half: u32,
)
    requires
        base + I2C_COMD_BASE + 4 * I2C_COMD_SLOTS <= u32::MAX,
    ensures
        ({
            let w = super::after_all(r, programming(base, half)).words;
            &&& w[base] == half
            &&& w[(base + 0x38) as u32] == half
            &&& w[(base + 0x04) as u32] & 0x13 == 0x13
            &&& w[(base + 0x0C) as u32] == 0xF_FFFF
            &&& w[(base + 0x18) as u32] & 0x3000 == 0
            &&& w[(base + 0x30) as u32] <= half || half < 2
        }),
{
    let ops = programming(base, half);
    assert(ops.len() == 17);
    assert(ops.take(17) =~= ops);
    assert(ops.take(0) =~= Seq::empty());
    assert forall|k: int| 0 < k <= 17 implies super::after_all(r, #[trigger] ops.take(k))
        == super::after(super::after_all(r, ops.take(k - 1)), ops[k - 1]) by {
        super::lemma_after_take(r, ops, k);
    }
    super::lemma_after_take(r, ops, 17);
    super::lemma_after_take(r, ops, 16);
    super::lemma_after_take(r, ops, 15);
    super::lemma_after_take(r, ops, 14);
    super::lemma_after_take(r, ops, 13);
    super::lemma_after_take(r, ops, 12);
    super::lemma_after_take(r, ops, 11);
    super::lemma_after_take(r, ops, 10);
    super::lemma_after_take(r, ops, 9);
    super::lemma_after_take(r, ops, 8);
    super::lemma_after_take(r, ops, 7);
    super::lemma_after_take(r, ops, 6);
    super::lemma_after_take(r, ops, 5);
    super::lemma_after_take(r, ops, 4);
    super::lemma_after_take(r, ops, 3);
    super::lemma_after_take(r, ops, 2);
    super::lemma_after_take(r, ops, 1);
    let held = super::after_all(r, ops.take(14)).held;
    lemma_words(0, held);
}

/// Every byte that was received comes out in its place, whatever the words hold above
/// it.
pub proof fn law_received_bytes_keep_their_place(words: Seq<u32>, i: int)
    requires
        0 <= i < words.len(),
    ensures
        low_bytes(words).len() == words.len(),
        low_bytes(words)[i] == words[i] % 256,
{
    let w = words[i];
    lemma_words(0, w);
}

/// A transfer ends as the worst of what is raised says: refused, then stalled, then lost
/// to another master; it succeeds only where it is complete and none of these is, and is
/// not over while nothing is raised.
pub proof fn law_a_transfer_ends_as_the_worst_says(raw: u32)
    ensures
        (outcome(raw) == Some(Ok::<(), BusError>(()))) == (raw & 0x80 != 0 && raw & 0x400 == 0 && raw
            & 0x100 == 0 && raw & 0x20 == 0),
        (outcome(raw) is None) == (raw & 0x80 == 0 && raw & 0x400 == 0 && raw & 0x100 == 0 && raw
            & 0x20 == 0),
        (outcome(raw) == Some(Err::<(), BusError>(BusError::DeviceNotResponding))) == (raw & 0x400
            != 0),
        (outcome(raw) == Some(Err::<(), BusError>(BusError::Timeout))) == (raw & 0x400 == 0 && raw
            & 0x100 != 0),
        (outcome(raw) == Some(Err::<(), BusError>(BusError::Busy))) == (raw & 0x400 == 0 && raw
            & 0x100 == 0 && raw & 0x20 != 0),
{
    lemma_words(0, raw);
}

/// There are two controllers, and a bus has two pads of its own; the first that cannot be
/// routed, data before clock, says why it has none.
pub proof fn law_a_bus_has_two_pads(
    base: u32,
    sda: u8,
    scl: u8,
    first: Result<(), BusError>,
    second: Result<(), BusError>,
)
    ensures
        instance_at(base) is Some == (base == 0x3FF5_3000 || base == 0x3FF6_7000),
        instance_at(0x3FF5_3000) == Some(0u8),
        instance_at(0x3FF6_7000) == Some(1u8),
        ({
            let r = pads_accepted(sda, scl, first, second);
            &&& r is Ok == (sda != scl && first is Ok && second is Ok)
            &&& sda == scl ==> r == Err::<(), BusError>(BusError::InvalidConfig)
            &&& sda != scl && first is Err ==> r == first
            &&& sda != scl && first is Ok ==> r == second
        }),
{
}

/// A controller is rebuilt without a trace of the transfer that failed: each of its sixteen
/// commands is cleared, its clock is stopped and started, and it is programmed as when it came
/// up.
pub proof fn law_a_rebuilt_controller_has_no_commands(base: u32, half: u32, slot: int)
    requires
        base == 0x3FF5_3000 || base == 0x3FF6_7000,
        0 <= slot < 16,
    ensures
        ({
            let ops = rebuilding(base, half);
            &&& ops[slot] == (RegOp::Write { addr: (base + 0x58 + 4 * slot) as u32, value: 0 })
            &&& ops[16] == (RegOp::Gate { base, on: false })
            &&& ops[17] == (RegOp::Gate { base, on: true })
            &&& ops.skip(18) == programming(base, half)
        }),
{
    assert(rebuilding(base, half).skip(18) =~= programming(base, half));
}

/// A wait that ends well leaves the controller alone but for what was raised; one that ends
/// badly, or lasts a million looks, has it rebuilt; nothing else ends one.
pub proof fn law_a_failed_wait_rebuilds_the_controller(base: u32, half: u32, raw: u32, spins: u32)
    requires
        base + 0x100 <= u32::MAX,
    ensures
        match waited(base, half, raw, spins) {
            WaitView::Again => outcome(raw) is None && spins < 1_000_000,
            WaitView::Over { result, ops } => {
                &&& outcome(raw) is None ==> spins >= 1_000_000 && result == Err::<(), BusError>(
                    BusError::Timeout,
                )
                &&& outcome(raw) is Some ==> result == outcome(raw)->0
                &&& result is Err ==> ops == rebuilding(base, half)
                &&& result is Ok ==> ops == seq![
                    RegOp::Write { addr: (base + 0x24) as u32, value: 0x5A0 },
                ]
            },
        },
{
    lemma_words(0, raw);
}

/// A controller comes up as nothing but an I2C bus, and is clocked only where it is asked to be
/// one.
pub proof fn law_a_controller_comes_up_as_a_bus(
    base: u32,
    config: BusConfig,
    first: Result<(), BusError>,
    second: Result<(), BusError>,
)
    ensures
        ({
            let a = admitted(base, config, first, second);
            let ours = config is I2c && (base == 0x3FF5_3000 || base == 0x3FF6_7000);
            &&& a.clock == ours
            &&& !ours ==> a.result == Err::<(), BusError>(BusError::InvalidConfig)
            &&& ours ==> a.result == pads_accepted(
                config->I2c_0.sda,
                config->I2c_0.scl,
                first,
                second,
            )
        }),
{
}

} // verus!
