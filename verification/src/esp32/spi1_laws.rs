//! What the scripts of the flash controller do to the chip: a read gives back what the
//! chip holds, a program stores its words and an erase clears its sector, and nothing
//! else changes.

use vstd::prelude::*;

use super::spi1::{
    FlashOp, Span, ADDR, BUFFER_WORDS, CMD, CMD_FLASH_PP, CMD_FLASH_SE,
    CMD_FLASH_WRDI, CMD_FLASH_WREN, CMD_FLASH_WRSR, CMD_USR, CTRL, CTRL_WRSR_2B, MISO_DLEN,
    RD_STATUS, STATUS2_QE, USER, USR_DUMMY,
};
use super::RegOp;

verus! {

/// The controller with the chip behind it.
pub struct Chip {
    pub regs: super::Registers,
    /// A program or an erase is under way; the chip takes no command meanwhile.
    pub busy: bool,
    /// The next program or erase, or status write, is carried out.
    pub enabled: bool,
    /// Programs and erases are refused.
    pub protected: bool,
    /// The quad enable bit.
    pub quad: bool,
    /// What the chip holds, by words.
    pub memory: spec_fn(int) -> u32,
    /// What a script has handed out, by words.
    pub fetched: spec_fn(int) -> u32,
}

/// What a controller register holds, by its offset.
pub open spec fn reg(c: Chip, offset: int) -> u32 {
    c.regs.words[(0x3FF4_2000 + offset) as u32]
}

/// The chip's words after a program of `n` words from word `from` on: bits can only be
/// cleared, and a program that runs past its page of 64 words goes on at the page's
/// beginning.
pub open spec fn programmed(c: Chip, from: int, n: int) -> spec_fn(int) -> u32 {
    |w: int|
        {
            let i = (w - from) % 64;
            if w / 64 == from / 64 && i < n {
                (c.memory)(w) & reg(c, 0x80 + 4 * i)
            } else {
                (c.memory)(w)
            }
        }
}

/// The controller's registers with `n` words of the chip from word `from` on in the data
/// buffer.
pub open spec fn buffered(c: Chip, from: int, n: int) -> super::Registers {
    super::Registers {
        words: Map::new(
            |a: u32| true,
            |a: u32|
                {
                    let i = (a - 0x3FF4_2080) / 4;
                    if a >= 0x3FF4_2080 && (a - 0x3FF4_2080) % 4 == 0 && i < n {
                        (c.memory)(from + i)
                    } else {
                        c.regs.words[a]
                    }
                },
        ),
        ..c.regs
    }
}

/// A command that the controller knows finds its phases switched off.
pub open spec fn native(c: Chip) -> bool {
    reg(c, 0x1C) == 0 && reg(c, 0x08) == 0
}

/// The chip after a command was written. The numbers are the controller's and the chip's
/// own.
pub open spec fn obeyed(c: Chip, command: u32) -> Chip {
    let at = reg(c, 0x04);
    if c.busy {
        c
    } else if command == 0x4000_0000 {
        Chip { enabled: true, ..c }
    } else if command == 0x2000_0000 {
        Chip { enabled: false, ..c }
    } else if command == 0x0400_0000 && c.enabled {
        // Two bytes of status.
        let status = reg(c, 0x10);
        let two = reg(c, 0x08) / 0x40_0000 % 2 == 1;
        Chip {
            busy: true,
            enabled: false,
            protected: status % 256 / 4 != 0,
            quad: two && status / 512 % 2 == 1,
            ..c
        }
    } else if command == 0x0200_0000 && c.enabled && !c.protected && native(c) {
        Chip {
            busy: true,
            enabled: false,
            memory: programmed(c, (at % 0x100_0000) as int / 4, (at / 0x100_0000) as int / 4),
            ..c
        }
    } else if command == 0x0100_0000 && c.enabled && !c.protected && native(c) {
        Chip {
            busy: true,
            enabled: false,
            memory: |w: int|
                if w / 1024 == at / 4096 {
                    0xFFFF_FFFFu32
                } else {
                    (c.memory)(w)
                },
            ..c
        }
    } else if command == 0x0004_0000 && reg(c, 0x24) == 0x7000_0003 && reg(c, 0x1C) == 0xF000_0000
        && reg(c, 0x08) == 0 && reg(c, 0x20) / 0x400_0000 == 23 && reg(c, 0x20) % 256 == 0 {
        Chip {
            regs: buffered(
                c,
                (at / 256) as int / 4,
                (reg(c, 0x2C) + 1) / 32,
            ),
            ..c
        }
    } else {
        c
    }
}

/// The chip after one line of a script, none of which fails.
pub open spec fn chip_after(c: Chip, op: FlashOp) -> Chip {
    match op {
        FlashOp::Reg(op) => {
            let c1 = Chip { regs: super::after(c.regs, op), ..c };
            match op {
                RegOp::Write { addr, value } if addr == 0x3FF4_2000 => obeyed(c1, value),
                _ => c1,
            }
        },
        FlashOp::AwaitIdle => c,
        FlashOp::AwaitCommand => c,
        FlashOp::AwaitReady => Chip { busy: false, ..c },
        FlashOp::Unlock => Chip { busy: false, enabled: false, protected: false, ..c },
        FlashOp::Fetch { at, n } => Chip {
            fetched: |i: int|
                if at <= i < at + n {
                    reg(c, 0x80 + 4 * (i - at))
                } else {
                    (c.fetched)(i)
                },
            ..c
        },
        FlashOp::Mark { slot, value } => c,
        FlashOp::Trace { slot, unread } => c,
        FlashOp::AwaitTraced { slot, unread } => Chip { busy: false, ..c },
    }
}

/// The chip after a script.
pub open spec fn chip_after_all(c: Chip, ops: Seq<FlashOp>) -> Chip
    decreases ops.len(),
{
    if ops.len() == 0 {
        c
    } else {
        chip_after(chip_after_all(c, ops.drop_last()), ops.last())
    }
}

proof fn lemma_chip_append(c: Chip, a: Seq<FlashOp>, b: Seq<FlashOp>)
    ensures
        chip_after_all(c, a + b) == chip_after_all(chip_after_all(c, a), b),
    decreases b.len(),
{
    if b.len() == 0 {
        assert(a + b =~= a);
    } else {
        assert((a + b).drop_last() =~= a + b.drop_last());
        lemma_chip_append(c, a, b.drop_last());
    }
}

proof fn lemma_chip_1(c: Chip, ops: Seq<FlashOp>)
    requires
        ops.len() == 1,
    ensures
        chip_after_all(c, ops) == chip_after(c, ops[0]),
{
    assert(ops.drop_last() =~= Seq::empty());
    assert(chip_after_all(c, Seq::empty()) == c);
}

proof fn lemma_chip_2(c: Chip, ops: Seq<FlashOp>)
    requires
        ops.len() == 2,
    ensures
        chip_after_all(c, ops) == chip_after(chip_after(c, ops[0]), ops[1]),
{
    lemma_chip_1(c, ops.drop_last());
}

proof fn lemma_chip_3(c: Chip, ops: Seq<FlashOp>)
    requires
        ops.len() == 3,
    ensures
        chip_after_all(c, ops) == chip_after(chip_after(chip_after(c, ops[0]), ops[1]), ops[2]),
{
    lemma_chip_2(c, ops.drop_last());
}

proof fn lemma_chip_5(c: Chip, ops: Seq<FlashOp>)
    requires
        ops.len() == 5,
    ensures
        chip_after_all(c, ops) == chip_after(
            chip_after(chip_after(chip_after(chip_after(c, ops[0]), ops[1]), ops[2]), ops[3]),
            ops[4],
        ),
{
    let four = ops.drop_last();
    lemma_chip_3(c, four.drop_last());
    assert(chip_after_all(c, four) == chip_after(chip_after_all(c, four.drop_last()), four.last()));
}

proof fn lemma_bits(at: u32, len: u32, x: u32)
    by (bit_vector)
    requires
        at < 0x100_0000,
        len < 0x100,
    ensures
        1u32 << 31 == 0x8000_0000,
        1u32 << 30 == 0x4000_0000,
        1u32 << 29 == 0x2000_0000,
        1u32 << 28 == 0x1000_0000,
        1u32 << 26 == 0x0400_0000,
        1u32 << 25 == 0x0200_0000,
        1u32 << 24 == 0x0100_0000,
        1u32 << 18 == 0x0004_0000,
        1u32 << 9 == 512,
        (7u32 << 28) | 0x03 == 0x7000_0003,
        (7u32 << 28) | 0xFF == 0x7000_00FF,
        (1u32 << 31) | (1u32 << 30) | (1u32 << 28) | (1u32 << 29) == 0xF000_0000,
        ((x & !((0x3Fu32 << 26) | 0xFF)) | ((23u32 << 26) | 0)) / 0x400_0000 == 23,
        ((x & !((0x3Fu32 << 26) | 0xFF)) | ((23u32 << 26) | 0)) % 256 == 0,
        (0u32 & !(1u32 << 29)) | 0 == 0,
        ((at & 0x00FF_FFFF) | len << 24) % 0x100_0000 == at,
        ((at & 0x00FF_FFFF) | len << 24) / 0x100_0000 == len,
        ((at & 0x00FF_FFFF) << 8) / 256 == at,
        ((at & !0xFFFu32) & 0x00FF_FFFF) / 4096 == at / 4096,
        0xFFFF_FFFFu32 & x == x,
        ((x & !0u32) | (1u32 << 22)) / 0x40_0000 % 2 == 1,
        ((x & !(1u32 << 22)) | 0) / 0x40_0000 % 2 == 0,
        (1u32 << 31) | (1u32 << 28) | (1u32 << 29) == 0xB000_0000,
        (7u32 << 28) | 0x05 == 0x7000_0005,
        (x & !0xFFu32) | 0 == x - x % 256,
        (x & ((1u32 << 7) | 0x7C) != 0) == (x % 256 >= 4),
        (x & 0x7 == 0) == (x % 8 == 0),
        (x & (1u32 << 0) == 0) == (x % 2 == 0),
        (x & ((1u32 << 31) | (1u32 << 30) | (1u32 << 27) | (1u32 << 25) | (1u32 << 24) | (1u32
            << 29) | (1u32 << 26) | (1u32 << 18)) == 0) == (x / 0x100_0000 & 0xEF == 0 && x
            / 0x4_0000 % 2 == 0),
{
}

/// A chip that got a command, with the controller's registers as they were but for the
/// command itself.
proof fn lemma_commanding(c: Chip, bit: u32)
    ensures
        chip_after_all(c, super::spi1::commanding(bit)) == obeyed(
            Chip {
                regs: super::after(c.regs, RegOp::Write { addr: CMD, value: bit }),
                ..c
            },
            bit,
        ),
{
    lemma_chip_5(c, super::spi1::commanding(bit));
}

proof fn lemma_awaiting(c: Chip)
    ensures
        chip_after_all(c, super::spi1::awaiting()) == (Chip { busy: false, ..c }),
{
    lemma_chip_2(c, super::spi1::awaiting());
}

/// The registers that a transaction is shaped by are all but the command and the buffer.
proof fn lemma_leaving(c: Chip)
    ensures
        ({
            let c1 = chip_after_all(c, super::spi1::leaving_continuous_read());
            &&& c1.memory == c.memory
            &&& c1.fetched == c.fetched
            &&& c1.busy == c.busy
            &&& c1.enabled == c.enabled
            &&& c1.protected == c.protected
        }),
{
    let ops = super::spi1::leaving_continuous_read();
    lemma_bits(0, 0, 0);
    assert(ops.len() == 10);
    let a = ops.take(5);
    let b = ops.skip(5);
    assert(ops =~= a + b);
    lemma_chip_append(c, a, b);
    lemma_chip_5(c, a);
    lemma_chip_5(chip_after_all(c, a), b);
}

proof fn lemma_shaping_native(c: Chip)
    ensures
        ({
            let c1 = chip_after_all(c, super::spi1::shaping_native());
            &&& native(c1)
            &&& c1 == (Chip { regs: c1.regs, ..c })
        }),
{
    lemma_chip_3(c, super::spi1::shaping_native());
}

proof fn lemma_buffering(c: Chip, words: Seq<u32>)
    requires
        words.len() <= BUFFER_WORDS,
    ensures
        ({
            let c1 = chip_after_all(c, super::spi1::buffering(words));
            &&& c1 == (Chip { regs: c1.regs, ..c })
            &&& forall|i: int|
                0 <= i < words.len() ==> (#[trigger] reg(c1, 0x80 + 4 * i)) == words[i]
            &&& reg(c1, 0x04) == reg(c, 0x04)
            &&& reg(c1, 0x08) == reg(c, 0x08)
            &&& reg(c1, 0x1C) == reg(c, 0x1C)
        }),
    decreases words.len(),
{
    let ops = super::spi1::buffering(words);
    if words.len() > 0 {
        let before = words.drop_last();
        let c0 = chip_after_all(c, super::spi1::buffering(before));
        let c1 = chip_after_all(c, ops);
        lemma_buffering(c, before);
        assert(ops.drop_last() =~= super::spi1::buffering(before));
        assert forall|i: int| 0 <= i < words.len() implies (#[trigger] reg(c1, 0x80 + 4 * i))
            == words[i] by {
            if i < before.len() {
                assert(reg(c0, 0x80 + 4 * i) == before[i]);
            }
        }
    }
}

proof fn lemma_page(w: int, from: int, n: int)
    requires
        0 <= from,
        0 <= n <= 64,
        from % 64 + n <= 64,
    ensures
        (w / 64 == from / 64 && (w - from) % 64 < n) == (from <= w < from + n),
        from <= w < from + n ==> (w - from) % 64 == w - from,
{
}

/// One go of a program stores its words and nothing else.
#[verifier::spinoff_prover]
#[verifier::rlimit(60)]
proof fn lemma_programming(c: Chip, addr: u32, data: Seq<u32>, s: Span, w: int)
    requires
        addr % 4 == 0,
        addr + 4 * data.len() <= 0x100_0000,
        0 < s.n <= BUFFER_WORDS,
        s.at + s.n <= data.len(),
        (addr + 4 * s.at) % 256 + 4 * s.n <= 256,
        !c.protected,
        forall|i: int|
            s.at <= i < s.at + s.n ==> (c.memory)(#[trigger] (addr as int / 4 + i)) == 0xFFFF_FFFF,
    ensures
        ({
            let c1 = chip_after_all(c, super::spi1::programming(addr, data, s));
            &&& !c1.protected
            &&& !c1.enabled
            &&& c1.fetched == c.fetched
            &&& (c1.memory)(w) == if addr as int / 4 + s.at <= w < addr as int / 4 + s.at + s.n {
                data[w - addr as int / 4]
            } else {
                (c.memory)(w)
            }
        }),
{
    let at = (addr + 4 * s.at) as u32;
    let words = data.subrange(s.at as int, s.at + s.n);
    let p1 = super::spi1::awaiting();
    let p2 = super::spi1::commanding(CMD_FLASH_WREN);
    let p3 = super::spi1::shaping_native();
    let p4 = seq![
        FlashOp::Reg(RegOp::Update { addr: USER, clear: USR_DUMMY, set: 0 }),
        FlashOp::Reg(
            RegOp::Write { addr: ADDR, value: super::spi1::program_address(at, s.n as int) },
        ),
    ];
    let p5 = super::spi1::buffering(words);
    let p6 = super::spi1::commanding(CMD_FLASH_PP);
    let c1 = chip_after_all(c, p1);
    lemma_awaiting(c);
    let c2 = chip_after_all(c1, p2);
    lemma_commanding(c1, CMD_FLASH_WREN);
    lemma_bits(at, (4 * s.n) as u32, 0);
    assert(c2.enabled && !c2.busy && c2.memory == c.memory);
    let c3 = chip_after_all(c2, p3);
    lemma_shaping_native(c2);
    let c4 = chip_after_all(c3, p4);
    lemma_chip_2(c3, p4);
    assert(native(c4));
    assert(c4.enabled && !c4.busy && !c4.protected && c4.memory == c.memory);
    let c5 = chip_after_all(c4, p5);
    lemma_buffering(c4, words);
    let c6 = chip_after_all(c5, p6);
    lemma_commanding(c5, CMD_FLASH_PP);
    lemma_chip_append(c, p1, p2);
    lemma_chip_append(c, p1 + p2, p3);
    lemma_chip_append(c, p1 + p2 + p3, p4);
    lemma_chip_append(c, p1 + p2 + p3 + p4, p5);
    lemma_chip_append(c, p1 + p2 + p3 + p4 + p5, p6);
    assert(super::spi1::programming(addr, data, s) =~= p1 + p2 + p3 + p4 + p5 + p6);
    let fired = Chip {
        regs: super::after(c5.regs, RegOp::Write { addr: CMD, value: CMD_FLASH_PP }),
        ..c5
    };
    let from = at as int / 4;
    let n = s.n as int;
    assert(reg(fired, 0x04) == super::spi1::program_address(at, n));
    assert(c6.memory == programmed(fired, from, n));
    assert(from == addr as int / 4 + s.at);
    lemma_page(w, from, n);
    if from <= w < from + n {
        let i = w - from;
        assert(reg(fired, 0x80 + 4 * i) == reg(c5, 0x80 + 4 * i));
        assert(reg(c5, 0x80 + 4 * i) == words[i]);
        assert((c.memory)(addr as int / 4 + (s.at + i)) == 0xFFFF_FFFF);
        lemma_bits(0, 0, words[i]);
    }
}

proof fn lemma_programming_first(addr: u32, data: Seq<u32>, s: Span, rest: Seq<Span>)
    ensures
        super::spi1::programming_all(addr, data, seq![s] + rest) == super::spi1::programming(
            addr,
            data,
            s,
        ) + super::spi1::programming_all(addr, data, rest),
    decreases rest.len(),
{
    let all = seq![s] + rest;
    if rest.len() == 0 {
        assert(all.drop_last() =~= Seq::empty());
        assert(all.last() == s);
        assert(super::spi1::programming_all(addr, data, Seq::empty()) =~= Seq::empty());
        assert(super::spi1::programming_all(addr, data, all) =~= super::spi1::programming(
            addr,
            data,
            s,
        ) + super::spi1::programming_all(addr, data, rest));
    } else {
        assert(all.drop_last() =~= seq![s] + rest.drop_last());
        lemma_programming_first(addr, data, s, rest.drop_last());
        assert(super::spi1::programming_all(addr, data, all) =~= super::spi1::programming(
            addr,
            data,
            s,
        ) + super::spi1::programming_all(addr, data, rest));
    }
}

proof fn lemma_programming_all(c: Chip, addr: u32, data: Seq<u32>, done: int, w: int)
    requires
        addr % 4 == 0,
        addr + 4 * data.len() <= 0x100_0000,
        0 <= done <= data.len(),
        !c.protected,
        forall|i: int|
            done <= i < data.len() ==> (c.memory)(#[trigger] (addr as int / 4 + i))
                == 0xFFFF_FFFF,
    ensures
        ({
            let spans = super::spi1::program_spans(addr as int, done, data.len() as int);
            let c1 = chip_after_all(c, super::spi1::programming_all(addr, data, spans));
            &&& c1.fetched == c.fetched
            &&& !c1.protected
            &&& done < data.len() ==> !c1.enabled
            &&& done == data.len() ==> c1.enabled == c.enabled
            &&& (c1.memory)(w) == if addr as int / 4 + done <= w < addr as int / 4 + data.len() {
                data[w - addr as int / 4]
            } else {
                (c.memory)(w)
            }
        }),
    decreases data.len() - done,
{
    let total = data.len() as int;
    let spans = super::spi1::program_spans(addr as int, done, total);
    let n = super::spi1::program_step(addr as int, done, total);
    if done < total {
        assert((addr + 4 * done) % 4 == 0);
        assert(0 < n <= BUFFER_WORDS);
        let s = Span { at: done as usize, n: n as usize };
        let rest = super::spi1::program_spans(addr as int, done + n, total);
        lemma_programming_first(addr, data, s, rest);
        assert(spans == seq![s] + rest);
        let go = super::spi1::programming(addr, data, s);
        let c1 = chip_after_all(c, go);
        lemma_chip_append(c, go, super::spi1::programming_all(addr, data, rest));
        lemma_programming(c, addr, data, s, w);
        assert forall|i: int| done + n <= i < total implies (c1.memory)(
            #[trigger] (addr as int / 4 + i),
        ) == 0xFFFF_FFFF by {
            lemma_programming(c, addr, data, s, addr as int / 4 + i);
        }
        lemma_programming_all(c1, addr, data, done + n, w);
    } else {
        assert(chip_after_all(c, Seq::empty()) == c);
    }
}

/// A program stores every one of its words where it belongs, on a chip that is erased
/// there, and changes nothing else of it. The chip is ready afterwards, and takes no
/// further program by accident.
pub proof fn law_a_program_stores_its_words(c: Chip, addr: u32, data: Seq<u32>, w: int)
    requires
        addr % 4 == 0,
        addr + 4 * data.len() <= 0x100_0000,
        forall|i: int|
            0 <= i < data.len() ==> (c.memory)(#[trigger] (addr as int / 4 + i)) == 0xFFFF_FFFF,
    ensures
        ({
            let after = chip_after_all(c, super::spi1::writing(addr, data));
            &&& (after.memory)(w) == if addr as int / 4 <= w < addr as int / 4 + data.len() {
                data[w - addr as int / 4]
            } else {
                (c.memory)(w)
            }
            &&& !after.busy
            &&& !after.enabled
        }),
{
    let a = super::spi1::leaving_continuous_read();
    let b = seq![FlashOp::Unlock];
    let d = super::spi1::programming_all(
        addr,
        data,
        super::spi1::program_spans(addr as int, 0, data.len() as int),
    );
    let e = super::spi1::awaiting();
    lemma_leaving(c);
    let c1 = chip_after_all(c, a);
    let c2 = chip_after_all(c1, b);
    lemma_chip_1(c1, b);
    assert(c2.memory == c.memory);
    lemma_programming_all(c2, addr, data, 0, w);
    lemma_awaiting(chip_after_all(c2, d));
    lemma_chip_append(c, a, b);
    lemma_chip_append(c, a + b, d);
    lemma_chip_append(c, a + b + d, e);
}

/// An erase clears the whole of the sector that its address lies in and nothing else,
/// the first one, which is traced, as every other.
#[verifier::spinoff_prover]
#[verifier::rlimit(60)]
pub proof fn law_an_erase_clears_its_sector(c: Chip, addr: u32, first: bool, w: int)
    requires
        addr < 0x100_0000,
    ensures
        ({
            let after = chip_after_all(c, super::spi1::erasing(addr, first));
            &&& (after.memory)(w) == if w / 1024 == addr / 4096 {
                0xFFFF_FFFFu32
            } else {
                (c.memory)(w)
            }
            &&& !after.busy
            &&& !after.enabled
        }),
{
    let p1 = seq![FlashOp::Unlock];
    let p2 = super::spi1::awaiting();
    let p3 = super::spi1::tracing(0, first);
    let p4 = super::spi1::commanding(CMD_FLASH_WREN);
    let p5 = super::spi1::tracing(1, first);
    let p6 = super::spi1::shaping_native();
    let p7 = seq![
        FlashOp::Reg(RegOp::Write { addr: CTRL, value: 0 }),
        FlashOp::Reg(RegOp::Write { addr: ADDR, value: super::spi1::erase_address(addr) }),
    ];
    let p8 = super::spi1::commanding(CMD_FLASH_SE);
    let p9 = super::spi1::tracing(2, first);
    let p10 = if first {
        seq![FlashOp::AwaitTraced { slot: 3, unread: super::spi1::ERASE_UNREAD }]
    } else {
        super::spi1::awaiting()
    };
    lemma_bits(addr, 0, 0);
    let c1 = chip_after_all(c, p1);
    lemma_chip_1(c, p1);
    let c2 = chip_after_all(c1, p2);
    lemma_awaiting(c1);
    let c3 = chip_after_all(c2, p3);
    lemma_tracing(c2, 0, first);
    let c4 = chip_after_all(c3, p4);
    lemma_commanding(c3, CMD_FLASH_WREN);
    let c5 = chip_after_all(c4, p5);
    lemma_tracing(c4, 1, first);
    let c6 = chip_after_all(c5, p6);
    lemma_shaping_native(c5);
    let c7 = chip_after_all(c6, p7);
    lemma_chip_2(c6, p7);
    assert(native(c7) && c7.enabled && !c7.busy && !c7.protected && c7.memory == c.memory);
    let c8 = chip_after_all(c7, p8);
    lemma_commanding(c7, CMD_FLASH_SE);
    let c9 = chip_after_all(c8, p9);
    lemma_tracing(c8, 2, first);
    if first {
        lemma_chip_1(c9, p10);
    } else {
        lemma_awaiting(c9);
    }
    lemma_chip_append(c, p1, p2);
    lemma_chip_append(c, p1 + p2, p3);
    lemma_chip_append(c, p1 + p2 + p3, p4);
    lemma_chip_append(c, p1 + p2 + p3 + p4, p5);
    lemma_chip_append(c, p1 + p2 + p3 + p4 + p5, p6);
    lemma_chip_append(c, p1 + p2 + p3 + p4 + p5 + p6, p7);
    lemma_chip_append(c, p1 + p2 + p3 + p4 + p5 + p6 + p7, p8);
    lemma_chip_append(c, p1 + p2 + p3 + p4 + p5 + p6 + p7 + p8, p9);
    lemma_chip_append(c, p1 + p2 + p3 + p4 + p5 + p6 + p7 + p8 + p9, p10);
}

proof fn lemma_tracing(c: Chip, slot: usize, first: bool)
    ensures
        chip_after_all(c, super::spi1::tracing(slot, first)) == c,
{
    if first {
        lemma_chip_1(c, super::spi1::tracing(slot, first));
    } else {
        assert(chip_after_all(c, Seq::empty()) == c);
    }
}

/// The controller is shaped for reading data.
pub open spec fn shaped(c: Chip) -> bool {
    &&& reg(c, 0x24) == 0x7000_0003
    &&& reg(c, 0x1C) == 0xF000_0000
    &&& reg(c, 0x08) == 0
    &&& reg(c, 0x20) / 0x400_0000 == 23
    &&& reg(c, 0x20) % 256 == 0
}

proof fn lemma_shaping_read(c: Chip)
    ensures
        ({
            let c1 = chip_after_all(c, super::spi1::shaping_read());
            &&& shaped(c1)
            &&& c1 == (Chip { regs: c1.regs, ..c })
        }),
{
    lemma_bits(0, 0, reg(c, 0x20));
    lemma_chip_5(c, super::spi1::shaping_read());
}

/// One go of a read hands out its words.
#[verifier::spinoff_prover]
#[verifier::rlimit(60)]
proof fn lemma_fetching(c: Chip, addr: u32, s: Span, i: int)
    requires
        addr % 4 == 0,
        addr + 4 * (s.at + s.n) <= 0x100_0000,
        0 < s.n <= BUFFER_WORDS,
        shaped(c),
        !c.busy,
    ensures
        ({
            let c1 = chip_after_all(c, super::spi1::fetching(addr, s));
            &&& shaped(c1)
            &&& !c1.busy
            &&& c1.memory == c.memory
            &&& (c1.fetched)(i) == if s.at <= i < s.at + s.n {
                (c.memory)(addr as int / 4 + i)
            } else {
                (c.fetched)(i)
            }
        }),
{
    let at = (addr + 4 * s.at) as u32;
    let p1 = seq![
        FlashOp::Reg(RegOp::Write { addr: ADDR, value: super::spi1::read_address(at) }),
        FlashOp::Reg(RegOp::Write { addr: MISO_DLEN, value: (32 * s.n - 1) as u32 }),
    ];
    let p2 = super::spi1::commanding(CMD_USR);
    let p3 = seq![FlashOp::Fetch { at: s.at, n: s.n }];
    lemma_bits(at, 0, 0);
    let c1 = chip_after_all(c, p1);
    lemma_chip_2(c, p1);
    assert(shaped(c1));
    let c2 = chip_after_all(c1, p2);
    lemma_commanding(c1, CMD_USR);
    let fired = Chip {
        regs: super::after(c1.regs, RegOp::Write { addr: CMD, value: CMD_USR }),
        ..c1
    };
    assert(shaped(fired) && reg(fired, 0x04) == super::spi1::read_address(at));
    assert(c2.regs == buffered(fired, at as int / 4, s.n as int));
    assert(shaped(c2));
    lemma_chip_1(c2, p3);
    lemma_chip_append(c, p1, p2);
    lemma_chip_append(c, p1 + p2, p3);
    assert(super::spi1::fetching(addr, s) =~= p1 + p2 + p3);
    if s.at <= i < s.at + s.n {
        let k = i - s.at;
        let a = (0x3FF4_2000 + (0x80 + 4 * k)) as u32;
        assert((a - 0x3FF4_2080) / 4 == k);
        assert(reg(c2, 0x80 + 4 * k) == (c.memory)(at as int / 4 + k));
    }
}

proof fn lemma_fetching_first(addr: u32, s: Span, rest: Seq<Span>)
    ensures
        super::spi1::fetching_all(addr, seq![s] + rest) == super::spi1::fetching(addr, s)
            + super::spi1::fetching_all(addr, rest),
    decreases rest.len(),
{
    let all = seq![s] + rest;
    if rest.len() == 0 {
        assert(all.drop_last() =~= Seq::empty());
        assert(all.last() == s);
        assert(super::spi1::fetching_all(addr, Seq::empty()) =~= Seq::empty());
    } else {
        assert(all.drop_last() =~= seq![s] + rest.drop_last());
        lemma_fetching_first(addr, s, rest.drop_last());
    }
    assert(super::spi1::fetching_all(addr, all) =~= super::spi1::fetching(addr, s)
        + super::spi1::fetching_all(addr, rest));
}

proof fn lemma_fetching_all(c: Chip, addr: u32, done: int, total: int, i: int)
    requires
        addr % 4 == 0,
        addr + 4 * total <= 0x100_0000,
        0 <= done <= total <= usize::MAX,
        shaped(c),
        !c.busy,
    ensures
        ({
            let c1 = chip_after_all(
                c,
                super::spi1::fetching_all(addr, super::spi1::read_spans(done, total)),
            );
            &&& c1.memory == c.memory
            &&& (c1.fetched)(i) == if done <= i < total {
                (c.memory)(addr as int / 4 + i)
            } else {
                (c.fetched)(i)
            }
        }),
    decreases total - done,
{
    if done < total {
        let n = super::spi1::read_step(done, total);
        let s = Span { at: done as usize, n: n as usize };
        let rest = super::spi1::read_spans(done + n, total);
        lemma_fetching_first(addr, s, rest);
        let go = super::spi1::fetching(addr, s);
        lemma_chip_append(c, go, super::spi1::fetching_all(addr, rest));
        lemma_fetching(c, addr, s, i);
        lemma_fetching_all(chip_after_all(c, go), addr, done + n, total, i);
    } else {
        assert(chip_after_all(c, Seq::empty()) == c);
    }
}

/// A read hands out exactly the words that the chip holds at its address, in order, and
/// changes nothing of it.
pub proof fn law_a_read_gives_what_the_chip_holds(c: Chip, addr: u32, total: usize, i: int)
    requires
        addr % 4 == 0,
        addr + 4 * total <= 0x100_0000,
    ensures
        ({
            let after = chip_after_all(c, super::spi1::reading(addr, total as int));
            &&& after.memory == c.memory
            &&& (after.fetched)(i) == if 0 <= i < total {
                (c.memory)(addr as int / 4 + i)
            } else {
                (c.fetched)(i)
            }
        }),
{
    let a = super::spi1::leaving_continuous_read();
    let b = super::spi1::awaiting();
    let d = super::spi1::shaping_read();
    let e = super::spi1::fetching_all(addr, super::spi1::read_spans(0, total as int));
    lemma_leaving(c);
    let c1 = chip_after_all(c, a);
    lemma_awaiting(c1);
    let c2 = chip_after_all(c1, b);
    lemma_shaping_read(c2);
    let c3 = chip_after_all(c2, d);
    lemma_fetching_all(c3, addr, 0, total as int, i);
    lemma_chip_append(c, a, b);
    lemma_chip_append(c, a + b, d);
    lemma_chip_append(c, a + b + d, e);
}

/// What was programmed into an erased sector is what is read back, and an erase takes it
/// away again.
pub proof fn law_a_read_gives_back_a_program(c: Chip, addr: u32, data: Seq<u32>, i: int)
    requires
        addr % 4 == 0,
        addr + 4 * data.len() <= 0x100_0000,
        data.len() <= usize::MAX,
        0 <= i < data.len(),
        forall|k: int|
            0 <= k < data.len() ==> (c.memory)(#[trigger] (addr as int / 4 + k)) == 0xFFFF_FFFF,
    ensures
        ({
            let written = chip_after_all(c, super::spi1::writing(addr, data));
            let read = chip_after_all(written, super::spi1::reading(addr, data.len() as int));
            (read.fetched)(i) == data[i]
        }),
{
    let written = chip_after_all(c, super::spi1::writing(addr, data));
    law_a_program_stores_its_words(c, addr, data, addr as int / 4 + i);
    law_a_read_gives_what_the_chip_holds(written, addr, data.len() as usize, i);
}

/// Lifting the protection of a chip lifts it, keeps quad enable and what the chip holds,
/// and leaves neither the write enabled nor the controller set to two bytes of status.
#[verifier::spinoff_prover]
#[verifier::rlimit(60)]
pub proof fn law_unlocking_lifts_the_protection(c: Chip)
    requires
        !c.busy,
    ensures
        ({
            let after = chip_after_all(c, super::spi1::unlocking());
            &&& !after.protected
            &&& after.quad
            &&& !after.enabled
            &&& !after.busy
            &&& after.memory == c.memory
            &&& reg(after, 0x08) / 0x40_0000 % 2 == 0
        }),
{
    let p1 = seq![
        FlashOp::Mark { slot: 0, value: (super::spi1::UNLOCK_BEGUN + 2) as u32 },
        FlashOp::Reg(RegOp::Update { addr: CTRL, clear: 0, set: CTRL_WRSR_2B }),
    ];
    let p2 = super::spi1::commanding(CMD_FLASH_WREN);
    let p3 = seq![
        FlashOp::Mark { slot: 0, value: (super::spi1::UNLOCK_BEGUN + 3) as u32 },
        FlashOp::Reg(RegOp::Write { addr: RD_STATUS, value: STATUS2_QE }),
    ];
    let p4 = super::spi1::commanding(CMD_FLASH_WRSR);
    let p5 = seq![
        FlashOp::Mark { slot: 0, value: (super::spi1::UNLOCK_BEGUN + 4) as u32 },
        FlashOp::Reg(RegOp::Update { addr: CTRL, clear: CTRL_WRSR_2B, set: 0 }),
    ];
    let p6 = super::spi1::awaiting();
    let p7 = seq![
        FlashOp::Mark { slot: 0, value: (super::spi1::UNLOCK_BEGUN + 5) as u32 },
        FlashOp::Trace { slot: 2, unread: super::spi1::UNLOCK_UNREAD },
    ];
    let p8 = super::spi1::commanding(CMD_FLASH_WRDI);
    let p9 = seq![FlashOp::Mark { slot: 0, value: (super::spi1::UNLOCK_BEGUN + 6) as u32 }];
    lemma_bits(0, 0, reg(c, 0x08));
    let c1 = chip_after_all(c, p1);
    lemma_chip_2(c, p1);
    let c2 = chip_after_all(c1, p2);
    lemma_commanding(c1, CMD_FLASH_WREN);
    assert(c2.enabled && !c2.busy);
    let c3 = chip_after_all(c2, p3);
    lemma_chip_2(c2, p3);
    assert(reg(c3, 0x08) == reg(c1, 0x08));
    let c4 = chip_after_all(c3, p4);
    lemma_commanding(c3, CMD_FLASH_WRSR);
    assert(!c4.protected && c4.quad);
    lemma_bits(0, 0, reg(c4, 0x08));
    let c5 = chip_after_all(c4, p5);
    lemma_chip_2(c4, p5);
    let c6 = chip_after_all(c5, p6);
    lemma_awaiting(c5);
    let c7 = chip_after_all(c6, p7);
    lemma_chip_2(c6, p7);
    let c8 = chip_after_all(c7, p8);
    lemma_commanding(c7, CMD_FLASH_WRDI);
    lemma_chip_1(c8, p9);
    lemma_chip_append(c, p1, p2);
    lemma_chip_append(c, p1 + p2, p3);
    lemma_chip_append(c, p1 + p2 + p3, p4);
    lemma_chip_append(c, p1 + p2 + p3 + p4, p5);
    lemma_chip_append(c, p1 + p2 + p3 + p4 + p5, p6);
    lemma_chip_append(c, p1 + p2 + p3 + p4 + p5 + p6, p7);
    lemma_chip_append(c, p1 + p2 + p3 + p4 + p5 + p6 + p7, p8);
    lemma_chip_append(c, p1 + p2 + p3 + p4 + p5 + p6 + p7 + p8, p9);
    assert(super::spi1::unlocking() =~= p1 + p2 + p3 + p4 + p5 + p6 + p7 + p8 + p9);
}

/// A status is asked for by its opcode and one dummy cycle, with eight bits to come back, in a
/// single data line and with no address; only the last access starts it.
pub proof fn law_a_status_is_asked_for(r: super::Registers, user1: u32)
    ensures
        ({
            let ops = super::spi1::asking_status(user1);
            let ready = super::after_all(r, ops.drop_last());
            &&& ready.words[0x3FF4_201C] == 0xB000_0000
            &&& ready.words[0x3FF4_2008] == 0
            &&& ready.words[0x3FF4_2020] == user1 - user1 % 256
            &&& ready.words[0x3FF4_2024] == 0x7000_0005
            &&& ready.words[0x3FF4_202C] == 7
            &&& ready.words[0x3FF4_2080] == 0
            &&& ready.words[0x3FF4_2000] == r.words[0x3FF4_2000]
            &&& ops.last() == (RegOp::Write { addr: 0x3FF4_2000, value: 0x4_0000 })
        }),
{
    let ops = super::spi1::asking_status(user1);
    lemma_bits(0, 0, user1);
    assert(super::after_all(r, ops.take(0)) == r);
    super::lemma_after_take(r, ops, 1);
    super::lemma_after_take(r, ops, 2);
    super::lemma_after_take(r, ops, 3);
    super::lemma_after_take(r, ops, 4);
    super::lemma_after_take(r, ops, 5);
    super::lemma_after_take(r, ops, 6);
    super::lemma_after_take(r, ops, 7);
    super::lemma_after_take(r, ops, 8);
    assert(ops.drop_last() =~= ops.take(8));
}

/// A chip is protected by any of the upper six bits of its status, done when the lowest is
/// clear, and waited for no longer than 160 million cycles; a controller is at rest in state
/// zero, and its command is over when every bit that starts one is clear.
pub proof fn law_a_status_is_read_bit_by_bit(status: u32, ext2: u32, cmd: u32, cycles: u32)
    ensures
        super::spi1::protects(status) == (status % 256 >= 4),
        super::spi1::chip_done(status) == (status % 2 == 0),
        super::spi1::at_rest(ext2) == (ext2 % 8 == 0),
        super::spi1::command_over(cmd) == (cmd / 0x100_0000 & 0xEF == 0 && cmd / 0x4_0000 % 2
            == 0),
        super::spi1::timed(true, cycles) is Done,
        super::spi1::timed(false, cycles) is TimedOut == (cycles > 160_000_000),
        !(super::spi1::timed(false, cycles) is Done),
{
    lemma_bits(0, 0, status);
    lemma_bits(0, 0, ext2);
    lemma_bits(0, 0, cmd);
}

} // verus!
