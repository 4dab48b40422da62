//! What the SPI controllers are left with: the bytes, the lengths, the clock and the edges, by
//! the master, by DMA and by the slave.

use vstd::prelude::*;

use super::spi::{Chunk, DmaSlot, ExchangeView, SpiCtrl};
use super::{RegOp, Registers};
use crate::bus::{BusConfig, BusError, SpiMode};

verus! {

/// The register at an offset.
pub open spec fn at(r: Registers, base: u32, offset: int) -> u32 {
    r.words[(base + offset) as u32]
}

/// Byte `i` of the data buffer, whose words go out low byte first.
pub open spec fn buffered(r: Registers, base: u32, i: int) -> int {
    let word = at(r, base, 0x80 + 4 * (i / 4));
    if i % 4 == 0 {
        word as int % 256
    } else if i % 4 == 1 {
        word as int / 256 % 256
    } else if i % 4 == 2 {
        word as int / 65536 % 256
    } else {
        word as int / 16777216
    }
}

proof fn lemma_loaded_words(r: Registers, base: u32, data: Seq<u8>, k: int)
    requires
        0 <= k <= super::spi::words_for(data.len() as int),
        data.len() <= 64,
        base + 0x150 <= u32::MAX,
    ensures
        ({
            let some = super::after_all(r, super::spi::loading(base, data).take(k));
            &&& forall|w: int|
                0 <= w < k ==> #[trigger] at(some, base, 0x80 + 4 * w) == crate::math::le_word(
                    data.subrange(4 * w, super::smaller(4 * w + 4, data.len() as int)),
                )
            &&& forall|a: u32|
                !(base + 0x80 <= a < base + 0xC0) ==> #[trigger] some.words[a] == r.words[a]
        }),
    decreases k,
{
    let ops = super::spi::loading(base, data);
    if k > 0 {
        lemma_loaded_words(r, base, data, k - 1);
        super::lemma_after_take(r, ops, k);
        let before = super::after_all(r, ops.take(k - 1));
        let some = super::after_all(r, ops.take(k));
        let here = (base + super::spi::SPI_W0 + 4 * (k - 1)) as u32;
        assert(k <= 16);
        assert(here == base + 0x80 + 4 * (k - 1));
        assert(some.words == before.words.insert(
            here,
            crate::math::le_word(
                data.subrange(4 * (k - 1), super::smaller(4 * (k - 1) + 4, data.len() as int)),
            ),
        ));
        assert forall|w: int| 0 <= w < k implies #[trigger] at(some, base, 0x80 + 4 * w)
            == crate::math::le_word(
            data.subrange(4 * w, super::smaller(4 * w + 4, data.len() as int)),
        ) by {
            let addr = (base + (0x80 + 4 * w)) as u32;
            assert(addr == base + 0x80 + 4 * w);
            if w < k - 1 {
                assert(addr != here);
                assert(at(before, base, 0x80 + 4 * w) == at(some, base, 0x80 + 4 * w));
            }
        }
    } else {
        assert(super::after_all(r, ops.take(0)) == r);
    }
}

/// The data buffer holds the bytes that were put there, and nothing else has changed.
proof fn lemma_loaded(r: Registers, base: u32, data: Seq<u8>)
    requires
        data.len() <= 64,
        base + 0x150 <= u32::MAX,
    ensures
        ({
            let end = super::after_all(r, super::spi::loading(base, data));
            &&& forall|i: int|
                0 <= i < data.len() ==> #[trigger] buffered(end, base, i) == data[i]
            &&& forall|a: u32|
                !(base + 0x80 <= a < base + 0xC0) ==> #[trigger] end.words[a] == r.words[a]
        }),
{
    let ops = super::spi::loading(base, data);
    let n = super::spi::words_for(data.len() as int);
    lemma_loaded_words(r, base, data, n);
    assert(ops.take(n) =~= ops);
    let end = super::after_all(r, ops);
    assert forall|i: int| 0 <= i < data.len() implies #[trigger] buffered(end, base, i)
        == data[i] by {
        let w = i / 4;
        let piece = data.subrange(4 * w, super::smaller(4 * w + 4, data.len() as int));
        assert(at(end, base, 0x80 + 4 * w) == crate::math::le_word(piece));
        crate::math::lemma_word_holds_its_bytes(piece, i % 4);
        assert(piece[i % 4] == data[i]);
    }
}

proof fn lemma_bits(w: u32)
    by (bit_vector)
    ensures
        ({
            let u = (w & !(!((1u32 << 5) | (1u32 << 4)))) | ((1u32 << 0) | (1u32 << 27) | (1u32
                << 28) | 0);
            u & 0x30 == w & 0x30 && u & !0x30u32 == 0x1800_0001
        }),
        ({
            let u = (w & !(!((1u32 << 5) | (1u32 << 4)))) | ((1u32 << 0) | (1u32 << 27) | (1u32
                << 28) | (1u32 << 7));
            u & 0x30 == w & 0x30 && u & !0x30u32 == 0x1800_0081
        }),
        1u32 << 18 == 0x4_0000,
        1u32 << 31 == 0x8000_0000,
        (w & !0u32) | (7u32 | (1u32 << 29)) == w | 0x2000_0007,
        ({
            let u = (w & !(1u32 << 29)) | 7;
            u & 0x2000_0007 == 7 && u & !0x2000_0007u32 == w & !0x2000_0007u32
        }),
        ({
            let u = (w & !0u32) | (7u32 | (1u32 << 29));
            u & 0x2000_0007 == 0x2000_0007 && u & !0x2000_0007u32 == w & !0x2000_0007u32
        }),
        ({
            let u = (w & !((3u32 << 16) | 0xF)) | ((2u32 << 16) | 0xF);
            u & 0x3_000F == 0x2_000F && u & !0x3_000Fu32 == w & !0x3_000Fu32
        }),
        (w & !1u32) | 0 == w & 0xFFFF_FFFE,
        (w & !0u32) | ((1u32 << 5) | (1u32 << 4)) == w | 0x30,
        ({
            let on = (w & !0u32) | (1u32 << 31);
            let off = (on & !(1u32 << 31)) | 0;
            let clear = (off & !(1u32 << 4)) | 0;
            &&& on & 0x8000_0000 != 0
            &&& off & 0x8000_0000 == 0
            &&& clear == w & 0x7FFF_FFEF
        }),
        ({
            let on = (w & !0u32) | ((1u32 << 2) | (1u32 << 3) | (1u32 << 5) | (1u32 << 4));
            let off = (on & !((1u32 << 2) | (1u32 << 3) | (1u32 << 5) | (1u32 << 4))) | 0;
            let set = (off & !0u32) | ((1u32 << 9) | (1u32 << 11) | (1u32 << 10) | (1u32 << 12));
            &&& on & 0x3C == 0x3C
            &&& off & 0x3C == 0
            &&& set == (w & !0x3Cu32) | 0x1E00
        }),
        (1u32 << 5) | (1u32 << 7) == 0xA0,
        (w & 0x000F_FFFF) | (1u32 << 29) == (w & 0xF_FFFF) | 0x2000_0000,
        (w & 0x000F_FFFF) | (1u32 << 20) | (1u32 << 29) == (w & 0xF_FFFF) | 0x2010_0000,
        (1u32 << 0) | (1u32 << 4) | (1u32 << 6) | (1u32 << 27) | (1u32 << 28) | 0 == 0x1800_0051,
        (1u32 << 0) | (1u32 << 4) | (1u32 << 6) | (1u32 << 27) | (1u32 << 28) | (1u32 << 7)
            == 0x1800_00D1,
        1u32 << 28 == 0x1000_0000,
        (w & (1u32 << 4) != 0) == (w / 16 % 2 == 1),
        (w & (1u32 << 5) != 0) == (w / 32 % 2 == 1),
        (w & (1u32 << 7) != 0) == (w / 128 % 2 == 1),
        ({
            let s = (1u32 << 29) | (1u32 << 30);
            let on = (s & !0u32) | (1u32 << 31);
            (on & !(1u32 << 31)) | 0 == 0x6000_0000
        }),
        (0u32 & !0u32) | (1u32 << 0) == 1,
        (1u32 & !0u32) | (1u32 << 6) == 0x41,
        (w & !0u32) | (1u32 << 29) == w | 0x2000_0000,
        (w & !(1u32 << 29)) | 0 == w & 0xDFFF_FFFF,
        (0u32 << 16) | (0u32 << 18) | (2u32 << 21) | (2u32 << 23) == 0x0140_0000,
        (2u32 << 16) | (0u32 << 18) | (0u32 << 21) | (0u32 << 23) == 0x0002_0000,
        (0u32 << 16) | (0u32 << 18) | (1u32 << 21) | (2u32 << 23) == 0x0120_0000,
        (1u32 << 16) | (0u32 << 18) | (0u32 << 21) | (0u32 << 23) == 0x0001_0000,
        (1u32 << 0) | 0 | (1u32 << 27) | (1u32 << 28) == 0x1800_0001,
        (1u32 << 0) | (1u32 << 6) | (1u32 << 27) | (1u32 << 28) == 0x1800_0041,
{
}

/// A transfer through the buffer has its bytes ready, low byte first, and its length in bits
/// less one for both directions; data goes both ways, with the phase of the mode, and chip
/// select is framed as it was. Only the last access starts it.
pub proof fn law_a_transfer_sends_its_bytes(r: Registers, base: u32, cpha: bool, data: Seq<u8>)
    requires
        0 < data.len() <= 64,
        base + 0x150 <= u32::MAX,
    ensures
        ({
            let ops = super::spi::transferring(base, cpha, data);
            let ready = super::after_all(r, ops.drop_last());
            &&& forall|i: int|
                0 <= i < data.len() ==> #[trigger] buffered(ready, base, i) == data[i]
            &&& at(ready, base, 0x28) == 8 * data.len() - 1
            &&& at(ready, base, 0x2C) == 8 * data.len() - 1
            &&& at(ready, base, 0x1C) & 0x30 == at(r, base, 0x1C) & 0x30
            &&& at(ready, base, 0x1C) & !0x30u32 == if cpha {
                0x1800_0081u32
            } else {
                0x1800_0001
            }
            &&& at(ready, base, 0) == at(r, base, 0)
            &&& ops.last() == (RegOp::Write { addr: base, value: 0x4_0000 })
        }),
{
    let ops = super::spi::transferring(base, cpha, data);
    let load = super::spi::loading(base, data);
    let tail = ops.skip(load.len() as int).drop_last();
    assert(ops.drop_last() =~= load + tail);
    super::lemma_after_join(r, load, tail);
    lemma_loaded(r, base, data);
    let mid = super::after_all(r, load);
    assert(super::after_all(mid, tail.take(0)) == mid);
    super::lemma_after_take(mid, tail, 1);
    super::lemma_after_take(mid, tail, 2);
    super::lemma_after_take(mid, tail, 3);
    assert(tail.take(3) =~= tail);
    lemma_bits(at(r, base, 0x1C));
    let ready = super::after_all(r, ops.drop_last());
    assert forall|i: int| 0 <= i < data.len() implies #[trigger] buffered(ready, base, i)
        == data[i] by {
        assert(buffered(mid, base, i) == data[i]);
    }
}

/// Polarity is the second bit of a mode's number and phase the first.
pub proof fn law_a_mode_is_its_number(mode: SpiMode)
    ensures
        ({
            let (cpol, cpha) = super::spi::polarity_and_phase(mode);
            let number = (if cpol {
                2int
            } else {
                0
            }) + (if cpha {
                1int
            } else {
                0
            });
            match mode {
                SpiMode::Mode0 => number == 0,
                SpiMode::Mode1 => number == 1,
                SpiMode::Mode2 => number == 2,
                SpiMode::Mode3 => number == 3,
            }
        }),
{
}

/// A configured master drives no chip select of its own, idles its clock at the mode's level,
/// and is no slave of the old kind; what else is in these registers stays.
pub proof fn law_a_master_is_configured(r: Registers, base: u32, hz: u32, mode: SpiMode)
    requires
        base + 0x150 <= u32::MAX,
    ensures
        ({
            let end = super::after_all(r, super::spi::configuring(base, hz, mode));
            &&& at(end, base, 0x18) == super::spi::clock_reg(80_000_000, hz as int)
            &&& at(end, base, 0x34) & 0x2000_0007 == if mode is Mode2 || mode is Mode3 {
                0x2000_0007u32
            } else {
                7
            }
            &&& at(end, base, 0x34) & !0x2000_0007u32 == at(r, base, 0x34) & !0x2000_0007u32
            &&& at(end, base, 0x14) & 0x3_000F == 0x2_000F
            &&& at(end, base, 0x14) & !0x3_000Fu32 == at(r, base, 0x14) & !0x3_000Fu32
            &&& at(end, base, 0x38) == at(r, base, 0x38) & 0xFFFF_FFFE
        }),
{
    let ops = super::spi::configuring(base, hz, mode);
    assert(super::after_all(r, ops.take(0)) == r);
    super::lemma_after_take(r, ops, 1);
    super::lemma_after_take(r, ops, 2);
    super::lemma_after_take(r, ops, 3);
    super::lemma_after_take(r, ops, 4);
    assert(ops.take(4) =~= ops);
    lemma_bits(at(r, base, 0x34));
    lemma_bits(at(r, base, 0x14));
    lemma_bits(at(r, base, 0x38));
}

/// The first chip select is let out, and framed before and after; nothing else changes.
pub proof fn law_the_first_select_is_let_out(r: Registers, base: u32)
    requires
        base + 0x150 <= u32::MAX,
    ensures
        ({
            let end = super::after_all(r, super::spi::selecting(base));
            &&& at(end, base, 0x34) == at(r, base, 0x34) & 0xFFFF_FFFE
            &&& at(end, base, 0x1C) == at(r, base, 0x1C) | 0x30
        }),
{
    let ops = super::spi::selecting(base);
    assert(super::after_all(r, ops.take(0)) == r);
    super::lemma_after_take(r, ops, 1);
    super::lemma_after_take(r, ops, 2);
    assert(ops.take(2) =~= ops);
    lemma_bits(at(r, base, 0x34));
    lemma_bits(at(r, base, 0x1C));
}

/// A clock that some prescaler and counter give exactly is met exactly; one above three
/// quarters of the peripheral clock is that clock itself.
pub proof fn law_an_exact_clock_is_met(fapb: u32, hz: u32, pre: int, n: int)
    requires
        1 <= hz,
        1 <= pre <= 8192,
        2 <= n <= 64,
        pre * n * hz == fapb,
    ensures
        ({
            let w = super::spi::clock_reg(fapb as int, hz as int);
            let p = ((w >> 18) & 0x1FFF) + 1;
            let m = ((w >> 12) & 0x3F) + 1;
            hz <= fapb / 4 * 3 ==> fapb as int / (p * m) == hz
        }),
        hz > fapb / 4 * 3 ==> super::spi::clock_reg(fapb as int, hz as int) == 0x8000_0000,
{
    let f = fapb as int;
    let h = hz as int;
    lemma_bits(0);
    if hz <= fapb / 4 * 3 {
        super::spi::law_divided_clock_is_consistent(fapb, hz);
        let d = pre * n;
        assert(d >= 1) by (nonlinear_arith)
            requires
                pre >= 1,
                n >= 2,
                d == pre * n,
        ;
        assert(f / n == pre * h && f / d == h) by (nonlinear_arith)
            requires
                pre * n * h == f,
                n >= 2,
                d == pre * n,
                d >= 1,
                pre >= 1,
                h >= 1,
        ;
        assert((pre * h + h / 2) / h == pre) by (nonlinear_arith)
            requires
                h >= 1,
                pre >= 1,
        ;
        assert(super::spi::prescaler(f, h, n) == pre);
        assert(super::spi::clock_error(f, h, n) == 0);
    }
}

/// A changed clock is one that the controller has, from one hertz to the peripheral clock.
pub proof fn law_a_clock_is_changed_or_refused(base: u32, hz: u32)
    requires
        base + 0x150 <= u32::MAX,
    ensures
        match super::spi::speeding(base, hz) {
            Ok(RegOp::Write { addr, value }) => 1 <= hz <= 80_000_000 && addr == base + 0x18
                && value == super::spi::clock_reg(80_000_000, hz as int),
            Ok(_) => false,
            Err(e) => !(1 <= hz <= 80_000_000) && e is InvalidConfig,
        },
{
}

/// A bus has three pads of its own; the first that cannot be routed, in the order data out,
/// data in and clock, says why it has none.
pub proof fn law_a_bus_has_three_pads(
    mosi: u8,
    miso: u8,
    sck: u8,
    routable: (Result<(), BusError>, Result<(), BusError>, Result<(), BusError>),
)
    ensures
        ({
            let r = super::spi::pads_accepted(mosi, miso, sck, routable);
            let apart = mosi != miso && mosi != sck && miso != sck;
            &&& r is Ok == (apart && routable.0 is Ok && routable.1 is Ok && routable.2 is Ok)
            &&& !apart ==> r == Err::<(), BusError>(BusError::InvalidConfig)
            &&& apart && routable.0 is Err ==> r == routable.0
            &&& apart && routable.0 is Ok && routable.1 is Err ==> r == routable.1
            &&& apart && routable.0 is Ok && routable.1 is Ok ==> r == routable.2
        }),
{
}

/// There are two controllers to be had. One comes up as nothing but an SPI bus, and is clocked
/// only where it is asked to be one.
pub proof fn law_two_controllers_come_up(
    base: u32,
    config: BusConfig,
    routable: (Result<(), BusError>, Result<(), BusError>, Result<(), BusError>),
)
    ensures
        super::spi::instance_at(base) is Some == (base == 0x3FF6_4000 || base == 0x3FF6_5000),
        super::spi::instance_at(0x3FF6_4000) == Some(2u8),
        super::spi::instance_at(0x3FF6_5000) == Some(3u8),
        SpiCtrl::Spi2.spec_base() == 0x3FF6_4000,
        SpiCtrl::Spi3.spec_base() == 0x3FF6_5000,
        ({
            let a = super::spi::admitted(base, config, routable);
            let ours = config is Spi && super::spi::instance_at(base) is Some;
            &&& a.clock == ours
            &&& !ours ==> a.result == Err::<(), BusError>(BusError::InvalidConfig)
            &&& ours ==> a.result == super::spi::pads_accepted(
                config->Spi_0.mosi,
                config->Spi_0.miso,
                config->Spi_0.sck,
                routable,
            )
        }),
{
}

/// DMA carries what it can: a transfer of something, wanted, with a channel, in memory that it
/// reaches and in sixteen descriptors at most. What it is wanted for and cannot carry goes
/// through the buffer if it fits there, and is refused if not; what it is not wanted for goes
/// through the buffer.
pub proof fn law_dma_carries_what_it_can(
    base: u32,
    slot: DmaSlot,
    len: int,
    reachable: bool,
    descriptors: int,
)
    requires
        base == 0x3FF6_4000 || base == 0x3FF6_5000,
        0 <= len <= usize::MAX,
    ensures
        ({
            let e = super::spi::choosing(base, slot, len, reachable, descriptors);
            let dma = slot.enabled && slot.channel;
            let able = reachable && descriptors <= 16;
            &&& (e == ExchangeView::Dma { bank: slot.next_bank }) == (dma && able && len > 0)
            &&& e is Dma ==> e == ExchangeView::Dma { bank: slot.next_bank }
            &&& e is Refused == (dma && !able && len > 64)
            &&& e is Refused ==> e == ExchangeView::Refused(
                if descriptors > 16 {
                    BusError::InvalidConfig
                } else {
                    BusError::DmaError
                },
            )
            &&& e matches ExchangeView::Fifo(list) ==> list == super::spi::chunks(len)
        }),
{
}

/// The pieces of a transfer are 64 bytes each but for the last, and none where there is
/// nothing.
pub proof fn law_pieces_are_64_bytes(len: int, i: int)
    requires
        0 <= len <= usize::MAX,
    ensures
        super::spi::chunks(len).len() == 0 <==> len == 0,
        0 <= i < super::spi::chunks(len).len() - 1 ==> super::spi::chunks(len)[i] == (Chunk {
            from: (64 * i) as usize,
            to: (64 * i + 64) as usize,
        }),
        len > 0 ==> super::spi::chunks(len).last().to == len && 1 <= len
            - super::spi::chunks(len).last().from <= 64,
{
}

/// When DMA is armed, both chains are in their links with the start set, and no link was armed
/// before the core and the engine had been reset. Bursts are on, the flags of the transfer
/// before are gone, and both directions have the length.
pub proof fn law_dma_is_armed_after_a_reset(
    r: Registers,
    base: u32,
    cpha: bool,
    tx_chain: u32,
    rx_chain: u32,
    len: int,
)
    requires
        base + 0x150 <= u32::MAX,
        0 < len,
        8 * len <= u32::MAX,
    ensures
        ({
            let ops = super::spi_dma::arming(base, cpha, tx_chain, rx_chain, len);
            let reset = super::after_all(r, ops.take(11));
            let end = super::after_all(r, ops);
            &&& at(reset, base, 0x104) == 0
            &&& at(reset, base, 0x108) == 0
            &&& at(super::after_all(r, ops.take(3)), base, 0x38) & 0x8000_0000 != 0
            &&& at(super::after_all(r, ops.take(5)), base, 0x100) & 0x3C == 0x3C
            &&& at(reset, base, 0x38) == at(r, base, 0x38) & 0x7FFF_FFEF
            &&& at(reset, base, 0x100) == (at(r, base, 0x100) & !0x3Cu32) | 0x1E00
            &&& at(reset, base, 0x11C) == 0xA0
            &&& at(end, base, 0x28) == 8 * len - 1
            &&& at(end, base, 0x2C) == 8 * len - 1
            &&& at(end, base, 0x104) == (tx_chain & 0xF_FFFF) | 0x2000_0000
            &&& at(end, base, 0x108) == (rx_chain & 0xF_FFFF) | 0x2010_0000
            &&& at(end, base, 0x1C) == if cpha {
                0x1800_00D1u32
            } else {
                0x1800_0051
            }
            &&& at(end, base, 0x38) == at(reset, base, 0x38)
            &&& at(end, base, 0x100) == at(reset, base, 0x100)
        }),
{
    let ops = super::spi_dma::arming(base, cpha, tx_chain, rx_chain, len);
    assert(super::after_all(r, ops.take(0)) == r);
    super::lemma_after_take(r, ops, 1);
    super::lemma_after_take(r, ops, 2);
    super::lemma_after_take(r, ops, 3);
    super::lemma_after_take(r, ops, 4);
    super::lemma_after_take(r, ops, 5);
    super::lemma_after_take(r, ops, 6);
    super::lemma_after_take(r, ops, 7);
    super::lemma_after_take(r, ops, 8);
    super::lemma_after_take(r, ops, 9);
    super::lemma_after_take(r, ops, 10);
    super::lemma_after_take(r, ops, 11);
    super::lemma_after_take(r, ops, 12);
    super::lemma_after_take(r, ops, 13);
    super::lemma_after_take(r, ops, 14);
    assert(ops.take(14) =~= ops);
    lemma_bits(at(r, base, 0x38));
    lemma_bits(at(r, base, 0x100));
    lemma_bits(tx_chain);
    lemma_bits(rx_chain);
}

/// DMA is over when the transaction is, the last byte has been received and the last byte has
/// been fetched: bit 4 of one register, bits 5 and 7 of the other. Halting stops both links.
pub proof fn law_dma_is_over_when_all_of_it_is(r: Registers, base: u32, slave: u32, raw: u32)
    requires
        base + 0x150 <= u32::MAX,
    ensures
        super::spi_dma::landed(slave, raw) == (slave / 16 % 2 == 1 && raw / 32 % 2 == 1 && raw
            / 128 % 2 == 1),
        ({
            let end = super::after_all(r, super::spi_dma::halting(base));
            at(end, base, 0x104) == 0x1000_0000 && at(end, base, 0x108) == 0x1000_0000
        }),
{
    lemma_bits(slave);
    lemma_bits(raw);
    let ops = super::spi_dma::halting(base);
    assert(super::after_all(r, ops.take(0)) == r);
    super::lemma_after_take(r, ops, 1);
    super::lemma_after_take(r, ops, 2);
    assert(ops.take(2) =~= ops);
}

/// A slave is told the idle level that its mode does not have and takes its input on the other
/// edge where exactly one of polarity and phase is set.
pub proof fn law_a_slaves_edges_follow_the_mode(mode: SpiMode)
    ensures
        ({
            let (cpol, cpha) = super::spi::polarity_and_phase(mode);
            let (idle, edge, delays) = super::spi_slave::timing(mode);
            &&& idle == !cpol
            &&& edge == (cpol != cpha)
            &&& delays == match mode {
                SpiMode::Mode0 => 0x0140_0000u32,
                SpiMode::Mode1 => 0x0002_0000,
                SpiMode::Mode2 => 0x0120_0000,
                SpiMode::Mode3 => 0x0001_0000,
            }
        }),
{
    lemma_bits(0);
}

/// A slave is left out of reset, in slave mode with its buffer open, both ways at once, with
/// the edges and delays of its mode, without a clock and without any other phase.
pub proof fn law_a_slave_is_set_up(r: Registers, base: u32, mode: SpiMode)
    requires
        base + 0x150 <= u32::MAX,
    ensures
        ({
            let ops = super::spi_slave::enslaving(base, mode);
            let end = super::after_all(r, ops);
            let (idle, edge, delays) = super::spi_slave::timing(mode);
            &&& ops[0] == (RegOp::Gate { base, on: true })
            &&& at(end, base, 0x18) == 0
            &&& at(end, base, 0x08) == 0
            &&& at(end, base, 0x38) == 0x6000_0000
            &&& at(end, base, 0x1C) == if edge {
                0x41u32
            } else {
                1
            }
            &&& at(end, base, 0x34) == if idle {
                at(r, base, 0x34) | 0x2000_0000
            } else {
                at(r, base, 0x34) & 0xDFFF_FFFF
            }
            &&& at(end, base, 0x14) == delays
        }),
{
    let ops = super::spi_slave::enslaving(base, mode);
    let n = ops.len() as int;
    assert(super::after_all(r, ops.take(0)) == r);
    super::lemma_after_take(r, ops, 1);
    super::lemma_after_take(r, ops, 2);
    super::lemma_after_take(r, ops, 3);
    super::lemma_after_take(r, ops, 4);
    super::lemma_after_take(r, ops, 5);
    super::lemma_after_take(r, ops, 6);
    super::lemma_after_take(r, ops, 7);
    super::lemma_after_take(r, ops, 8);
    super::lemma_after_take(r, ops, 9);
    super::lemma_after_take(r, ops, 10);
    if n == 11 {
        super::lemma_after_take(r, ops, 11);
    }
    assert(ops.take(n) =~= ops);
    lemma_bits(at(r, base, 0x34));
}

/// An armed slave has its bytes ready and both lengths, has been reset before, carries the
/// edge of its mode, and has forgotten the last transfer; only the last access lets the master
/// clock it.
pub proof fn law_a_slave_is_armed(r: Registers, base: u32, edge: bool, data: Seq<u8>)
    requires
        0 < data.len() <= 64,
        base + 0x150 <= u32::MAX,
    ensures
        ({
            let ops = super::spi_slave::preparing(base, edge, data);
            let ready = super::after_all(r, ops.drop_last());
            &&& forall|i: int|
                0 <= i < data.len() ==> #[trigger] buffered(ready, base, i) == data[i]
            &&& at(ready, base, 0x48) == 8 * data.len() - 1
            &&& at(ready, base, 0x4C) == 8 * data.len() - 1
            &&& at(ready, base, 0x1C) == if edge {
                0x1800_0041u32
            } else {
                0x1800_0001
            }
            &&& at(ready, base, 0x38) == at(r, base, 0x38) & 0x7FFF_FFEF
            &&& ops.last() == (RegOp::Write { addr: base, value: 0x4_0000 })
        }),
{
    let ops = super::spi_slave::preparing(base, edge, data);
    let head = ops.take(2);
    let load = super::spi::loading(base, data);
    let tail = ops.skip(2 + load.len() as int).drop_last();
    assert(ops.drop_last() =~= head + load + tail);
    super::lemma_after_join(r, head + load, tail);
    super::lemma_after_join(r, head, load);
    assert(super::after_all(r, head.take(0)) == r);
    super::lemma_after_take(r, head, 1);
    super::lemma_after_take(r, head, 2);
    assert(head.take(2) =~= head);
    let first = super::after_all(r, head);
    lemma_loaded(first, base, data);
    let mid = super::after_all(first, load);
    assert(super::after_all(mid, tail.take(0)) == mid);
    super::lemma_after_take(mid, tail, 1);
    super::lemma_after_take(mid, tail, 2);
    super::lemma_after_take(mid, tail, 3);
    super::lemma_after_take(mid, tail, 4);
    assert(tail.take(4) =~= tail);
    lemma_bits(at(r, base, 0x38));
    let ready = super::after_all(r, ops.drop_last());
    assert forall|i: int| 0 <= i < data.len() implies #[trigger] buffered(ready, base, i)
        == data[i] by {
        assert(buffered(mid, base, i) == data[i]);
    }
}

/// A slave exchanges what was asked for, as far as there are bytes and 64 of them fit.
pub proof fn law_a_slave_exchanges_what_fits(len: int, have: int)
    ensures
        ({
            let n = super::spi_slave::clipped(len, have);
            n <= len && n <= have && n <= 64 && (n == len || n == have || n == 64)
        }),
{
}

} // verus!
