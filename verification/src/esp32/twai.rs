//! The CAN controller in its self-test: a frame goes out over a pad and comes back in
//! over the same one, with no other node.

use vstd::prelude::*;

use super::{Admission, RegOp};
use crate::bus::BusError;

verus! {

pub const CAN_BASE: u32 = 0x3FF6_B000;
pub const MODE: u32 = CAN_BASE + 0x00;
pub const CMD: u32 = CAN_BASE + 0x04;
pub const STATUS: u32 = CAN_BASE + 0x08;
pub const INT_ENA: u32 = CAN_BASE + 0x10;
pub const BUS_TIMING_0: u32 = CAN_BASE + 0x18;
pub const BUS_TIMING_1: u32 = CAN_BASE + 0x1C;
/// The frame buffer, a byte to a word; in reset the acceptance filter.
pub const DATA0: u32 = CAN_BASE + 0x40;
pub const CLOCK_DIVIDER: u32 = CAN_BASE + 0x7C;

pub const MODE_RM: u32 = 1 << 0;
pub const MODE_LOM: u32 = 1 << 1;
pub const MODE_STM: u32 = 1 << 2;
pub const MODE_AFM: u32 = 1 << 3;

pub const CMD_RRB: u32 = 1 << 2;
pub const CMD_CDO: u32 = 1 << 3;
/// Send a frame and receive it too.
pub const CMD_SRR: u32 = 1 << 4;

/// There is a frame to take.
pub const STATUS_RBS: u32 = 1 << 0;

/// The extended register layout, and no clock output.
pub const CDR_PELICAN_NO_CLKOUT: u32 = (1 << 7) | (1 << 3);

/// 125 kbit/s: a prescaler of 32, halved, and a jump width of 3, each less one.
pub const BTR0_125K: u32 = (32 / 2 - 1) | ((3 - 1) << 6);
/// 15 and 4 quanta before and after the sampling point, each less one.
pub const BTR1_125K: u32 = (15 - 1) | ((4 - 1) << 4);

/// How many looks a frame is given to come back.
pub const RX_SPINS: u32 = 2_000_000;

/// A frame with an identifier of eleven bits.
#[derive(Clone, Copy, Debug, PartialEq, Eq)]
pub struct Frame {
    pub id: u16,
    pub len: u8,
    pub data: [u8; 8],
}

/// A [`Frame`] with its data as a sequence.
#[verifier::ext_equal]
pub struct FrameView {
    pub id: u16,
    pub len: u8,
    pub data: Seq<u8>,
}

impl View for Frame {
    type V = FrameView;

    open spec fn view(&self) -> FrameView {
        FrameView { id: self.id, len: self.len, data: self.data@ }
    }
}

/// How the controller behaves on the bus.
#[derive(Clone, Copy, Debug, PartialEq, Eq, Structural)]
pub enum Mode {
    /// Every frame wants an acknowledgement.
    Normal,
    /// None does.
    SelfTest,
    /// Nothing is sent.
    ListenOnly,
}

impl Mode {
    /// The mode register, always with a single filter.
    pub open spec fn bits(self) -> u32 {
        MODE_AFM | match self {
            Mode::Normal => 0u32,
            Mode::SelfTest => MODE_STM,
            Mode::ListenOnly => MODE_LOM,
        }
    }

    /// The mode register, always with a single filter.
    pub fn mode_bits(self) -> (b: u32)
        ensures
            b == self.bits(),
    {
        let own: u32 = match self {
            Mode::Normal => 0,
            Mode::SelfTest => MODE_STM,
            Mode::ListenOnly => MODE_LOM,
        };
        MODE_AFM | own
    }
}

/// Why a frame did not come back.
#[derive(Clone, Copy, Debug, PartialEq, Eq, Structural)]
pub enum TwaiError {
    Timeout,
}

/// How much data a frame has: never more than eight bytes.
pub open spec fn data_len(claimed: int) -> int {
    super::smaller(claimed, 8)
}

/// A frame as the buffer holds it: its length, the identifier at the high end of two
/// bytes, the data.
pub open spec fn encoded(f: FrameView) -> Seq<u8> {
    let n = data_len(f.len as int);
    Seq::new(
        11,
        |i: int|
            if i == 0 {
                n as u8
            } else if i == 1 {
                (f.id >> 3) as u8
            } else if i == 2 {
                ((f.id << 5) & 0xE0) as u8
            } else if i < 3 + n {
                f.data[i - 3]
            } else {
                0
            },
    )
}

/// The frame in a buffer.
pub open spec fn decoded(buf: Seq<u8>) -> FrameView {
    let n = data_len((buf[0] & 0x0F) as int);
    FrameView {
        id: ((buf[1] as u16) << 3) | ((buf[2] as u16) >> 5),
        len: n as u8,
        data: Seq::new(
            8,
            |i: int|
                if i < n {
                    buf[3 + i]
                } else {
                    0
                },
        ),
    }
}

/// Lays a frame out for the buffer, and says how many bytes of it count.
pub fn encode(frame: &Frame) -> (r: ([u8; 11], usize))
    ensures
        r.0@ == encoded(frame@),
        r.1 == 3 + data_len(frame.len as int),
{
    let len: usize = if frame.len < 8 {
        frame.len as usize
    } else {
        8
    };
    let mut buf: [u8; 11] = [0u8; 11];
    buf[0] = len as u8;
    buf[1] = (frame.id >> 3) as u8;
    buf[2] = ((frame.id << 5) & 0xE0) as u8;
    for i in 0..len
        invariant
            len == data_len(frame.len as int),
            buf@.len() == 11,
            buf@[0] == len,
            buf@[1] == (frame.id >> 3) as u8,
            buf@[2] == ((frame.id << 5) & 0xE0) as u8,
            forall|k: int|
                3 <= k < 11 ==> #[trigger] buf@[k] == if k < 3 + i {
                    frame.data@[k - 3]
                } else {
                    0
                },
    {
        buf[3 + i] = frame.data[i];
    }
    assert(buf@ =~= encoded(frame@));
    (buf, 3 + len)
}

/// Takes a frame out of the buffer. A length beyond eight is cut.
pub fn decode(buf: &[u8; 11]) -> (f: Frame)
    ensures
        f@ == decoded(buf@),
{
    let claimed: usize = (buf[0] & 0x0F) as usize;
    let len: usize = if claimed < 8 {
        claimed
    } else {
        8
    };
    let id: u16 = ((buf[1] as u16) << 3) | ((buf[2] as u16) >> 5);
    let mut data: [u8; 8] = [0u8; 8];
    for i in 0..len
        invariant
            len <= 8,
            data@.len() == 8,
            buf@.len() == 11,
            forall|k: int|
                0 <= k < 8 ==> #[trigger] data@[k] == if k < i {
                    buf@[3 + k]
                } else {
                    0
                },
    {
        data[i] = buf[3 + i];
    }
    let f: Frame = Frame { id, len: len as u8, data };
    assert(f@ =~= decoded(buf@));
    f
}

proof fn lemma_identifier(id: u16)
    by (bit_vector)
    ensures
        ((((id >> 3) as u8) as u16) << 3) | (((((id << 5) & 0xE0) as u8) as u16) >> 5) == id
            & 0x7FF,
        id <= 0x7FF ==> id & 0x7FF == id,
        id >> 3 == id / 8,
        (id << 5) & 0xE0 == 32 * (id % 8),
        forall|hi: u16, lo: u16| #![trigger hi << 3u16, lo >> 5u16]
            hi < 0x100 && lo < 0x100 ==> (hi << 3u16) | (lo >> 5u16) == 8 * hi + lo / 32,
{
}

proof fn lemma_bytes(w: u32)
    by (bit_vector)
    ensures
        (1u32 << 0) & 0xFFu32 == 1,
        ((1u32 << 7) | (1u32 << 3)) & 0xFFu32 == 0x88,
        (15u32 | (2u32 << 6)) & 0xFFu32 == 0x8F,
        (14u32 | (3u32 << 4)) & 0xFFu32 == 0x3E,
        0u32 & 0xFFu32 == 0,
        0xFFu32 & 0xFFu32 == 0xFF,
        ((1u32 << 3) | 0u32) & 0xFFu32 == 0x08,
        ((1u32 << 3) | (1u32 << 2)) & 0xFFu32 == 0x0C,
        ((1u32 << 3) | (1u32 << 1)) & 0xFFu32 == 0x0A,
        ((1u32 << 0) | ((1u32 << 3) | 0u32)) & 0xFFu32 == 0x09,
        ((1u32 << 0) | ((1u32 << 3) | (1u32 << 2))) & 0xFFu32 == 0x0D,
        ((1u32 << 0) | ((1u32 << 3) | (1u32 << 1))) & 0xFFu32 == 0x0B,
        ((1u32 << 2) | (1u32 << 3)) & 0xFFu32 == 0x0C,
        (1u32 << 4) & 0xFFu32 == 0x10,
        (1u32 << 2) & 0xFFu32 == 0x04,
        w < 0x100 ==> w & 0xFFu32 == w,
        (w & 0xFFu32) & (1u32 << 0) == w % 2,
{
}

proof fn lemma_length(n: u8)
    by (bit_vector)
    ensures
        n & 0x0F == n % 16,
{
}

/// What the bus carries of a frame: eleven bits of identifier, and no data past its
/// length.
pub open spec fn carried(f: FrameView) -> FrameView {
    let n = data_len(f.len as int);
    FrameView {
        id: f.id & 0x7FF,
        len: n as u8,
        data: Seq::new(
            8,
            |i: int|
                if i < n {
                    f.data[i]
                } else {
                    0
                },
        ),
    }
}

/// A frame comes back out of the buffer as the bus carries it: as it went in, where its
/// identifier has eleven bits, its length is at most eight and nothing follows its data.
pub proof fn law_frames_round_trip(f: FrameView)
    ensures
        decoded(encoded(f)) == carried(f),
        f.id <= 0x7FF && f.len <= 8 && f.data.len() == 8 && (forall|i: int|
            f.len <= i < 8 ==> #[trigger] f.data[i] == 0) ==> decoded(encoded(f)) == f,
{
    lemma_identifier(f.id);
    lemma_length(data_len(f.len as int) as u8);
    assert(decoded(encoded(f)).data =~= carried(f).data);
    if f.id <= 0x7FF && f.len <= 8 && f.data.len() == 8 && (forall|i: int|
        f.len <= i < 8 ==> #[trigger] f.data[i] == 0) {
        assert(carried(f).data =~= f.data);
    }
}

/// The controller.
#[derive(Clone, Copy, Debug, PartialEq, Eq, Structural)]
pub struct Twai {}

/// Writes one of the controller's registers, which are a byte wide.
pub open spec fn write8(addr: u32, value: u32) -> RegOp {
    RegOp::Write { addr, value: value & 0xFF }
}

/// The accesses that set the controller up, in reset as it demands, and let it go:
/// layout, timing, a filter that lets everything through, no interrupts, the mode.
pub open spec fn setting_up(mode: Mode) -> Seq<RegOp> {
    seq![
        write8(MODE, MODE_RM),
        write8(CLOCK_DIVIDER, CDR_PELICAN_NO_CLKOUT),
        write8(BUS_TIMING_0, BTR0_125K),
        write8(BUS_TIMING_1, BTR1_125K),
    ] + Seq::new(
        8,
        |i: int|
            if i % 2 == 0 {
                write8((DATA0 + 4 * (i / 2)) as u32, 0x00)
            } else {
                write8((DATA0 + 4 * (4 + i / 2)) as u32, 0xFF)
            },
    ) + seq![
        write8(INT_ENA, 0),
        write8(MODE, MODE_RM | mode.bits()),
        write8(MODE, mode.bits()),
        write8(CMD, CMD_RRB | CMD_CDO),
    ]
}

/// The accesses that send a frame to itself.
pub open spec fn looping(f: FrameView) -> Seq<RegOp> {
    Seq::new(
        (3 + data_len(f.len as int)) as nat,
        |i: int| write8((DATA0 + 4 * i) as u32, encoded(f)[i] as u32),
    ).push(write8(CMD, CMD_SRR))
}

/// There is a frame to take.
pub open spec fn waiting(status: u32) -> bool {
    (status & 0xFF) & STATUS_RBS != 0
}

fn set8(addr: u32, value: u32) -> (op: RegOp)
    ensures
        op == write8(addr, value),
{
    RegOp::Write { addr, value: value & 0xFF }
}

impl Twai {
    /// Whether the controller can come up on two pads, given what the pin multiplexer
    /// says of each; they may be the same. Where it can, route sending first and
    /// receiving second, and go on with [`Twai::configure`].
    pub fn new(tx_routable: Result<(), BusError>, rx_routable: Result<(), BusError>) -> (a:
        Admission)
        ensures
            a == (Admission {
                clock: true,
                result: if tx_routable is Err {
                    tx_routable
                } else {
                    rx_routable
                },
            }),
    {
        match tx_routable {
            Err(e) => Admission { clock: true, result: Err(e) },
            Ok(()) => Admission { clock: true, result: rx_routable },
        }
    }

    /// Sets the controller up in a mode.
    pub fn configure(mode: Mode) -> (ops: Vec<RegOp>)
        ensures
            ops@ == setting_up(mode),
    {
        let mut ops: Vec<RegOp> = vec![
            set8(MODE, MODE_RM),
            set8(CLOCK_DIVIDER, CDR_PELICAN_NO_CLKOUT),
            set8(BUS_TIMING_0, BTR0_125K),
            set8(BUS_TIMING_1, BTR1_125K),
        ];
        for i in 0..4u32
            invariant
                ops@ =~= setting_up(mode).take(4 + 2 * i),
        {
            ops.push(set8(DATA0 + i * 4, 0x00));
            ops.push(set8(DATA0 + (4 + i) * 4, 0xFF));
        }
        ops.push(set8(INT_ENA, 0));
        ops.push(set8(MODE, MODE_RM | mode.mode_bits()));
        ops.push(set8(MODE, mode.mode_bits()));
        ops.push(set8(CMD, CMD_RRB | CMD_CDO));
        assert(ops@ =~= setting_up(mode));
        ops
    }

    /// Sends a frame to itself; [`Twai::arrived`] tells when it is back.
    pub fn self_reception(&self, frame: &Frame) -> (ops: Vec<RegOp>)
        ensures
            ops@ == looping(frame@),
    {
        let (buf, n): ([u8; 11], usize) = encode(frame);
        let mut ops: Vec<RegOp> = Vec::new();
        for i in 0..n
            invariant
                n == 3 + data_len(frame.len as int),
                n <= 11,
                buf@ == encoded(frame@),
                ops@ =~= looping(frame@).take(i as int),
        {
            ops.push(set8(DATA0 + (i as u32) * 4, buf[i] as u32));
        }
        ops.push(set8(CMD, CMD_SRR));
        assert(ops@ =~= looping(frame@));
        ops
    }

    /// Whether there is a frame to take, by the status register.
    pub fn arrived(&self, status: u32) -> (yes: bool)
        ensures
            yes == waiting(status),
    {
        (status & 0xFF) & STATUS_RBS != 0
    }

    /// Takes the frame out of the eleven words of the buffer, and frees it.
    pub fn take(&self, words: &[u32; 11]) -> (r: (Frame, RegOp))
        ensures
            r.0@ == decoded(words@.map_values(|w: u32| (w & 0xFF) as u8)),
            r.1 == write8(CMD, CMD_RRB),
    {
        let mut buf: [u8; 11] = [0u8; 11];
        for i in 0..11usize
            invariant
                words@.len() == 11,
                buf@.len() == 11,
                forall|k: int| 0 <= k < i ==> #[trigger] buf@[k] == (words@[k] & 0xFF) as u8,
        {
            buf[i] = (words[i] & 0xFF) as u8;
        }
        assert(buf@ =~= words@.map_values(|w: u32| (w & 0xFF) as u8));
        (decode(&buf), set8(CMD, CMD_RRB))
    }
}

/// A frame goes into the buffer with its length first, at most eight, then the upper eight and
/// the lower three bits of its identifier, then its data.
pub proof fn law_a_frame_is_laid_out(f: FrameView, i: int)
    requires
        f.id <= 0x7FF,
        f.data.len() == 8,
        0 <= i < 8,
    ensures
        ({
            let b = encoded(f);
            &&& b.len() == 11
            &&& b[0] == if f.len < 8 {
                f.len
            } else {
                8
            }
            &&& 8 * b[1] + b[2] / 32 == f.id
            &&& b[2] % 32 == 0
            &&& b[3 + i] == if i < f.len {
                f.data[i]
            } else {
                0
            }
        }),
{
    lemma_identifier(f.id);
}

/// A buffer's frame has the identifier of its two bytes, the length of its first four bits, at
/// most eight, and its data as they lie there.
pub proof fn law_a_frame_is_read_out(buf: Seq<u8>, i: int)
    requires
        buf.len() == 11,
        0 <= i < 8,
    ensures
        ({
            let f = decoded(buf);
            &&& f.id == 8 * buf[1] + buf[2] / 32
            &&& f.len == if buf[0] % 16 < 8 {
                buf[0] % 16
            } else {
                8
            }
            &&& f.data[i] == if i < f.len {
                buf[3 + i]
            } else {
                0
            }
        }),
{
    lemma_identifier(0);
    lemma_length(buf[0]);
}

/// The controller, which takes timing, layout and filter only in reset.
pub struct Controller {
    pub mode: u32,
    pub words: Map<u32, u32>,
    pub commands: Seq<u32>,
}

/// The controller after a write.
pub open spec fn controller_after(c: Controller, op: RegOp) -> Controller {
    match op {
        RegOp::Write { addr, value } => if addr == 0x3FF6_B000 {
            Controller { mode: value, ..c }
        } else if addr == 0x3FF6_B004 {
            Controller { commands: c.commands.push(value), ..c }
        } else if c.mode % 2 == 1 {
            Controller { words: c.words.insert(addr, value), ..c }
        } else {
            c
        },
        _ => c,
    }
}

/// The controller after a list of writes.
pub open spec fn controller_after_all(c: Controller, ops: Seq<RegOp>) -> Controller
    decreases ops.len(),
{
    if ops.len() == 0 {
        c
    } else {
        controller_after(controller_after_all(c, ops.drop_last()), ops.last())
    }
}

proof fn lemma_controller(c: Controller, ops: Seq<RegOp>, k: int)
    requires
        0 < k <= ops.len(),
    ensures
        controller_after_all(c, ops.take(k)) == controller_after(
            controller_after_all(c, ops.take(k - 1)),
            ops[k - 1],
        ),
{
    assert(ops.take(k).drop_last() =~= ops.take(k - 1));
}

/// However the controller was left, it is set up in reset, for 125 kbit/s and with a filter
/// that lets everything through, and leaves reset in the mode that was asked for, with its
/// buffer freed.
pub proof fn law_the_controller_is_set_up_in_reset(c: Controller, mode: Mode)
    ensures
        ({
            let end = controller_after_all(c, setting_up(mode));
            let quanta = 1 + (end.words[0x3FF6_B01C] % 16 + 1) + (end.words[0x3FF6_B01C] / 16 % 8
                + 1);
            let prescaler = 2 * (end.words[0x3FF6_B018] % 64 + 1);
            &&& end.mode == match mode {
                Mode::Normal => 0x08u32,
                Mode::SelfTest => 0x0C,
                Mode::ListenOnly => 0x0A,
            }
            &&& 125_000 * prescaler * quanta == 80_000_000
            &&& end.words[0x3FF6_B018] == 0x8F
            &&& end.words[0x3FF6_B01C] == 0x3E
            &&& end.words[0x3FF6_B07C] == 0x88
            &&& end.words[0x3FF6_B040] == 0 && end.words[0x3FF6_B044] == 0
            &&& end.words[0x3FF6_B048] == 0 && end.words[0x3FF6_B04C] == 0
            &&& end.words[0x3FF6_B050] == 0xFF && end.words[0x3FF6_B054] == 0xFF
            &&& end.words[0x3FF6_B058] == 0xFF && end.words[0x3FF6_B05C] == 0xFF
            &&& end.words[0x3FF6_B010] == 0
            &&& end.commands == c.commands.push(0x0C)
        }),
{
    let ops = setting_up(mode);
    lemma_bytes(0);
    assert(BTR0_125K == 15u32 | (2u32 << 6));
    assert(BTR1_125K == 14u32 | (3u32 << 4));
    assert(controller_after_all(c, ops.take(0)) == c);
    lemma_controller(c, ops, 1);
    lemma_controller(c, ops, 2);
    lemma_controller(c, ops, 3);
    lemma_controller(c, ops, 4);
    lemma_controller(c, ops, 5);
    lemma_controller(c, ops, 6);
    lemma_controller(c, ops, 7);
    lemma_controller(c, ops, 8);
    lemma_controller(c, ops, 9);
    lemma_controller(c, ops, 10);
    lemma_controller(c, ops, 11);
    lemma_controller(c, ops, 12);
    lemma_controller(c, ops, 13);
    lemma_controller(c, ops, 14);
    lemma_controller(c, ops, 15);
    lemma_controller(c, ops, 16);
    assert(ops.take(16) =~= ops);
    let end = controller_after_all(c, ops);
    assert(end.words[0x3FF6_B018] == 0x8F && end.words[0x3FF6_B01C] == 0x3E);
    let quanta = 1 + (end.words[0x3FF6_B01C] % 16 + 1) + (end.words[0x3FF6_B01C] / 16 % 8 + 1);
    let prescaler = 2 * (end.words[0x3FF6_B018] % 64 + 1);
    assert(125_000 * prescaler * quanta == 80_000_000) by (nonlinear_arith)
        requires
            quanta == 20,
            prescaler == 32,
    ;
}

/// A frame that is sent to itself lies in the buffer a byte to a word, as far as it goes, before
/// the command that sends it and receives it too. One that has come in is told by the first
/// status bit.
pub proof fn law_a_frame_is_in_the_buffer_before_it_is_sent(f: FrameView, i: int, status: u32)
    requires
        f.data.len() == 8,
        0 <= i < 3 + data_len(f.len as int),
    ensures
        looping(f).len() == 4 + data_len(f.len as int),
        looping(f)[i] == (RegOp::Write {
            addr: (0x3FF6_B040 + 4 * i) as u32,
            value: encoded(f)[i] as u32,
        }),
        looping(f).last() == (RegOp::Write { addr: 0x3FF6_B004, value: 0x10 }),
        waiting(status) == (status % 2 == 1),
{
    lemma_bytes(encoded(f)[i] as u32);
    lemma_bytes(status);
}

} // verus!
