//! The flash that the code runs from: regions of it, and the window during which the
//! instruction cache, which reads through the same controller, is off.

use vstd::prelude::*;

use super::{judge, Poll, RegOp};

verus! {

/// What an erase takes at once.
pub const SECTOR_SIZE: u32 = 4096;

/// Why an operation failed.
#[derive(Clone, Copy, Debug, PartialEq, Eq, Structural)]
pub enum FlashError {
    /// The chip did not finish in time.
    Timeout,
    /// Outside the region.
    OutOfRange,
    /// The cache did not come to rest, and was left alone.
    CacheBusy,
    /// Not on whole words.
    Misaligned,
}

pub const DPORT_BASE: u32 = 0x3FF0_0000;
pub const PRO_CACHE_CTRL: u32 = DPORT_BASE + 0x040;
pub const PRO_CACHE_CTRL1: u32 = DPORT_BASE + 0x044;
pub const APP_CACHE_CTRL: u32 = DPORT_BASE + 0x058;
pub const APP_CACHE_CTRL1: u32 = DPORT_BASE + 0x05C;
pub const PRO_CACHE_ENABLE: u32 = 1 << 3;
/// Which windows the cache serves.
pub const PRO_CACHE_MASK: u32 = 0x3F;
pub const PRO_DCACHE_DBUG0: u32 = DPORT_BASE + 0x3F0;
pub const PRO_CACHE_STATE_SHIFT: u32 = 7;
pub const PRO_CACHE_STATE_MASK: u32 = 0xFFF;
pub const PRO_CACHE_STATE_IDLE: u32 = 1;
/// How many looks the cache is given to come to rest.
pub const CACHE_IDLE_SPINS: u32 = 100_000;

/// Where the boot ROM keeps its description of the chip.
pub const ROM_SPIFLASH_CHIP: u32 = 0x3FFA_E270;

/// What the boot ROM takes the chip to be.
#[derive(Clone, Copy, Debug, PartialEq, Eq, Structural)]
pub struct ChipInfo {
    pub device_id: u32,
    pub chip_size: u32,
    pub block_size: u32,
    pub sector_size: u32,
    pub page_size: u32,
    pub status_mask: u32,
}

/// The description in six words.
pub open spec fn described(words: Seq<u32>) -> ChipInfo {
    ChipInfo {
        device_id: words[0],
        chip_size: words[1],
        block_size: words[2],
        sector_size: words[3],
        page_size: words[4],
        status_mask: words[5],
    }
}

/// A description of a chip that there is.
pub open spec fn sane_chip(info: ChipInfo) -> bool {
    info.page_size == 256 && info.sector_size == 4096 && info.chip_size >= 0x10_0000
}

impl ChipInfo {
    /// The description in the six words at [`ROM_SPIFLASH_CHIP`].
    pub fn read(words: [u32; 6]) -> (info: Self)
        ensures
            info == described(words@),
    {
        ChipInfo {
            device_id: words[0],
            chip_size: words[1],
            block_size: words[2],
            sector_size: words[3],
            page_size: words[4],
            status_mask: words[5],
        }
    }

    /// Whether this describes a chip at all: page and sector are the same for every
    /// one there is, and none is smaller than a mebibyte.
    pub fn looks_sane(&self) -> (sane: bool)
        ensures
            sane == sane_chip(*self),
    {
        self.page_size == 256 && self.sector_size == 4096 && self.chip_size >= 0x10_0000
    }
}

/// A part of the flash with one owner. Offsets count from its beginning.
#[derive(Clone, Copy, Debug, PartialEq, Eq, Structural)]
pub struct FlashRegion {
    pub base: u32,
    pub len: u32,
}

/// Where `len` bytes at `offset` of a region are on the chip.
pub open spec fn located(r: FlashRegion, offset: int, len: int) -> Result<u32, FlashError> {
    if offset % 4 != 0 || len % 4 != 0 {
        Err(FlashError::Misaligned)
    } else if offset + len > r.len {
        Err(FlashError::OutOfRange)
    } else {
        Ok((r.base + offset) as u32)
    }
}

/// An access that is let through lies wholly within its region.
pub proof fn law_a_region_is_not_left(r: FlashRegion, offset: u32, len: u32)
    requires
        r.wf(),
        located(r, offset as int, len as int) is Ok,
    ensures
        r.base <= located(r, offset as int, len as int)->Ok_0,
        located(r, offset as int, len as int)->Ok_0 + len <= r.base + r.len,
{
}

/// Where the sector that holds `offset` of a region is on the chip.
pub open spec fn sector_at(r: FlashRegion, offset: int) -> Result<u32, FlashError> {
    located(r, SECTOR_SIZE * (offset / SECTOR_SIZE as int), SECTOR_SIZE as int)
}

/// The sectors of a whole region, and how erasing them ends.
pub struct Erasure {
    /// Erase these in order, each only if all before it succeeded.
    pub sectors: Vec<u32>,
    pub result: Result<(), FlashError>,
}

/// The sectors that begin in a region and lie within it.
pub open spec fn sectors(r: FlashRegion) -> Seq<u32> {
    Seq::new((r.len / SECTOR_SIZE) as nat, |i: int| (r.base + SECTOR_SIZE * i) as u32)
}

/// Where the sector that begins `k` sectors into a region is.
proof fn lemma_sector(r: FlashRegion, k: int)
    requires
        r.wf(),
        k >= 0,
        4096 * k < r.len,
    ensures
        located(r, SECTOR_SIZE * ((4096 * k) / SECTOR_SIZE as int), SECTOR_SIZE as int) == if k
            < sectors(r).len() {
            Ok::<u32, FlashError>(sectors(r)[k])
        } else {
            Err::<u32, FlashError>(FlashError::OutOfRange)
        },
        k <= sectors(r).len(),
        k < sectors(r).len() ==> 4096 * (k + 1) <= r.len,
        k == sectors(r).len() ==> r.len % SECTOR_SIZE != 0,
{
}

impl FlashRegion {
    /// The region lies within the address space.
    pub open spec fn wf(&self) -> bool {
        self.base + self.len <= u32::MAX
    }

    /// A region of `len` bytes.
    pub fn new(base: u32, len: u32) -> (r: Self)
        ensures
            r == (FlashRegion { base, len }),
    {
        FlashRegion { base, len }
    }

    /// Its length in bytes.
    pub fn len(&self) -> (len: u32)
        ensures
            len == self.len,
    {
        self.len
    }

    /// Whether there is nothing in it.
    pub fn is_empty(&self) -> (empty: bool)
        ensures
            empty == (self.len == 0),
    {
        self.len == 0
    }

    /// Where `len` bytes at `offset` are on the chip, if they are whole words of this
    /// region.
    pub fn check(&self, offset: u32, len: u32) -> (r: Result<u32, FlashError>)
        requires
            self.wf(),
        ensures
            r == located(*self, offset as int, len as int),
    {
        if offset % 4 != 0 || len % 4 != 0 {
            return Err(FlashError::Misaligned);
        }
        match offset.checked_add(len) {
            None => Err(FlashError::OutOfRange),
            Some(end) => {
                if end > self.len {
                    return Err(FlashError::OutOfRange);
                }
                Ok(self.base + offset)
            },
        }
    }

    /// Where to read `words` words at `offset`.
    pub fn read(&self, offset: u32, words: usize) -> (r: Result<u32, FlashError>)
        requires
            self.wf(),
            4 * words <= u32::MAX,
        ensures
            r == located(*self, offset as int, 4 * words),
    {
        self.check(offset, (words * 4) as u32)
    }

    /// Where to write `words` words at `offset`, which has to be erased there.
    pub fn write(&self, offset: u32, words: usize) -> (r: Result<u32, FlashError>)
        requires
            self.wf(),
            4 * words <= u32::MAX,
        ensures
            r == located(*self, offset as int, 4 * words),
    {
        self.check(offset, (words * 4) as u32)
    }

    /// Where the sector that holds `offset` is.
    pub fn erase_sector(&self, offset: u32) -> (r: Result<u32, FlashError>)
        requires
            self.wf(),
        ensures
            r == sector_at(*self, offset as int),
    {
        self.check(offset - (offset % SECTOR_SIZE), SECTOR_SIZE)
    }

    /// Every sector of the region. One that ends inside a sector is refused there.
    pub fn erase_all(&self) -> (e: Erasure)
        requires
            self.wf(),
        ensures
            e.sectors@ == sectors(*self),
            e.result == if self.len % SECTOR_SIZE == 0 {
                Ok::<(), FlashError>(())
            } else {
                Err::<(), FlashError>(FlashError::OutOfRange)
            },
    {
        let mut list: Vec<u32> = Vec::new();
        let mut off: u32 = 0;
        let ghost mut k: int = 0;
        while off < self.len
            invariant
                self.wf(),
                k >= 0,
                off == 4096 * k,
                off <= self.len,
                list@ == sectors(*self).take(k),
                k <= sectors(*self).len(),
            decreases self.len - off,
        {
            proof {
                lemma_sector(*self, k);
            }
            match self.erase_sector(off) {
                Err(e) => {
                    assert(list@ =~= sectors(*self));
                    return Erasure { sectors: list, result: Err(e) };
                },
                Ok(at) => {
                    list.push(at);
                    assert(list@ =~= sectors(*self).take(k + 1));
                },
            }
            off = off + SECTOR_SIZE;
            proof {
                k = k + 1;
            }
        }
        assert(list@ =~= sectors(*self));
        Erasure { sectors: list, result: Ok(()) }
    }
}

/// Erasing a region whose length is whole sectors erases each of them once and
/// nothing else.
pub proof fn law_a_region_is_erased_exactly(r: FlashRegion, at: int)
    requires
        r.wf(),
        r.len % SECTOR_SIZE == 0,
    ensures
        r.base <= at < r.base + r.len <==> exists|i: int|
            0 <= i < sectors(r).len() && #[trigger] sectors(r)[i] <= at < sectors(r)[i]
                + SECTOR_SIZE,
{
    let s = sectors(r);
    if r.base <= at < r.base + r.len {
        let i = (at - r.base) / SECTOR_SIZE as int;
        assert(s[i] <= at < s[i] + SECTOR_SIZE);
    }
}

/// One step into or out of the window without a cache.
#[derive(Clone, Copy, Debug, PartialEq, Eq, Structural)]
pub enum CacheOp {
    /// Let no interrupt through.
    RaiseLevel,
    /// Let through what was let through before.
    RestoreLevel,
    /// Mask the interrupts that cannot do without the cache.
    MaskInterrupts,
    /// Unmask them.
    RestoreInterrupts,
    /// Keep the windows that this core's cache serves.
    SaveWindows,
    /// Keep the windows that the other core's cache serves.
    SaveAppWindows,
    /// Halt the other core.
    StallApp,
    /// Let it go on.
    ReleaseApp,
    Reg(RegOp),
}

/// What a look at the cache says.
#[derive(Clone, Copy, Debug, PartialEq, Eq, Structural)]
pub enum CacheIdle {
    Again,
    Idle,
    /// It did not come to rest; this is what to leave behind about it.
    Busy(u32),
}

/// What the cache is doing.
pub open spec fn cache_state(dbug0: u32) -> u32 {
    (dbug0 >> PRO_CACHE_STATE_SHIFT) & PRO_CACHE_STATE_MASK
}

/// What a look at the cache says that `spins` looks in vain came before.
pub open spec fn rested(dbug0: u32, spins: u32) -> CacheIdle {
    match super::verdict(
        cache_state(dbug0) == PRO_CACHE_STATE_IDLE,
        spins,
        (CACHE_IDLE_SPINS - 1) as u32,
    ) {
        Poll::Done => CacheIdle::Idle,
        Poll::Again => CacheIdle::Again,
        Poll::TimedOut => CacheIdle::Busy(cache_state(dbug0) | 0x8000_0000),
    }
}

/// Judges the cache's state by a look that `spins` looks in vain came before.
pub fn cache_idle(dbug0: u32, spins: u32) -> (c: CacheIdle)
    ensures
        c == rested(dbug0, spins),
{
    let state: u32 = (dbug0 >> PRO_CACHE_STATE_SHIFT) & PRO_CACHE_STATE_MASK;
    match judge(state == PRO_CACHE_STATE_IDLE, spins, CACHE_IDLE_SPINS - 1) {
        Poll::Done => CacheIdle::Idle,
        Poll::Again => CacheIdle::Again,
        Poll::TimedOut => CacheIdle::Busy(state | 0x8000_0000),
    }
}

/// How every window begins. Without a hook that masks the interrupts which need the
/// cache, raising the level has to do for all of them.
pub open spec fn approaching(hooked: bool) -> Seq<CacheOp> {
    if hooked {
        seq![CacheOp::RaiseLevel, CacheOp::MaskInterrupts, CacheOp::SaveWindows]
    } else {
        seq![CacheOp::RaiseLevel, CacheOp::SaveWindows]
    }
}

/// How one ends whose cache did not come to rest.
pub open spec fn retreating(hooked: bool) -> Seq<CacheOp> {
    if hooked {
        seq![CacheOp::RestoreInterrupts, CacheOp::RestoreLevel]
    } else {
        seq![CacheOp::RestoreLevel]
    }
}

/// How the caches go off: the other core is halted before its own does. The level
/// goes back only where a hook keeps away what needs the cache.
pub open spec fn disabling(hooked: bool, app_running: bool) -> Seq<CacheOp> {
    (if app_running {
        seq![
            CacheOp::StallApp,
            CacheOp::SaveAppWindows,
            CacheOp::Reg(
                RegOp::Update { addr: APP_CACHE_CTRL, clear: PRO_CACHE_ENABLE, set: 0 },
            ),
        ]
    } else {
        Seq::empty()
    }) + seq![
        CacheOp::Reg(RegOp::Update { addr: PRO_CACHE_CTRL, clear: PRO_CACHE_ENABLE, set: 0 }),
    ] + (if hooked {
        seq![CacheOp::RestoreLevel]
    } else {
        Seq::empty()
    })
}

/// How the caches come back: the other core goes on after its own has. The level is
/// raised for it where it went back before.
pub open spec fn enabling(hooked: bool, windows: u32, app_windows: Option<u32>) -> Seq<CacheOp> {
    (if hooked {
        seq![CacheOp::RaiseLevel]
    } else {
        Seq::empty()
    }) + seq![
        CacheOp::Reg(RegOp::Update { addr: PRO_CACHE_CTRL, clear: 0, set: PRO_CACHE_ENABLE }),
        CacheOp::Reg(
            RegOp::Update {
                addr: PRO_CACHE_CTRL1,
                clear: PRO_CACHE_MASK,
                set: windows & PRO_CACHE_MASK,
            },
        ),
    ] + (match app_windows {
        Some(w) => seq![
            CacheOp::Reg(RegOp::Update { addr: APP_CACHE_CTRL, clear: 0, set: PRO_CACHE_ENABLE }),
            CacheOp::Reg(
                RegOp::Update {
                    addr: APP_CACHE_CTRL1,
                    clear: PRO_CACHE_MASK,
                    set: w & PRO_CACHE_MASK,
                },
            ),
            CacheOp::ReleaseApp,
        ],
        None => Seq::empty(),
    }) + retreating(hooked)
}

/// Begins a window; [`cache_idle`] says how it goes on.
pub fn approach(hooked: bool) -> (ops: Vec<CacheOp>)
    ensures
        ops@ == approaching(hooked),
{
    let mut ops: Vec<CacheOp> = vec![CacheOp::RaiseLevel];
    if hooked {
        ops.push(CacheOp::MaskInterrupts);
    }
    ops.push(CacheOp::SaveWindows);
    assert(ops@ =~= approaching(hooked));
    ops
}

/// Gives up a window whose cache did not come to rest; the operation fails with
/// [`FlashError::CacheBusy`].
pub fn retreat(hooked: bool) -> (ops: Vec<CacheOp>)
    ensures
        ops@ == retreating(hooked),
{
    let mut ops: Vec<CacheOp> = Vec::new();
    if hooked {
        ops.push(CacheOp::RestoreInterrupts);
    }
    ops.push(CacheOp::RestoreLevel);
    assert(ops@ =~= retreating(hooked));
    ops
}

/// Switches the caches off, given whether the other core is running.
pub fn disable(hooked: bool, app_running: bool) -> (ops: Vec<CacheOp>)
    ensures
        ops@ == disabling(hooked, app_running),
{
    let mut ops: Vec<CacheOp> = Vec::new();
    if app_running {
        ops.push(CacheOp::StallApp);
        ops.push(CacheOp::SaveAppWindows);
        ops.push(
            CacheOp::Reg(
                RegOp::Update { addr: APP_CACHE_CTRL, clear: PRO_CACHE_ENABLE, set: 0 },
            ),
        );
    }
    ops.push(
        CacheOp::Reg(RegOp::Update { addr: PRO_CACHE_CTRL, clear: PRO_CACHE_ENABLE, set: 0 }),
    );
    if hooked {
        ops.push(CacheOp::RestoreLevel);
    }
    assert(ops@ =~= disabling(hooked, app_running));
    ops
}

/// Brings the caches back with the windows they served, and the other core if it was
/// running.
pub fn enable(hooked: bool, windows: u32, app_windows: Option<u32>) -> (ops: Vec<CacheOp>)
    ensures
        ops@ == enabling(hooked, windows, app_windows),
{
    let mut ops: Vec<CacheOp> = Vec::new();
    if hooked {
        ops.push(CacheOp::RaiseLevel);
    }
    ops.push(
        CacheOp::Reg(RegOp::Update { addr: PRO_CACHE_CTRL, clear: 0, set: PRO_CACHE_ENABLE }),
    );
    ops.push(
        CacheOp::Reg(
            RegOp::Update {
                addr: PRO_CACHE_CTRL1,
                clear: PRO_CACHE_MASK,
                set: windows & PRO_CACHE_MASK,
            },
        ),
    );
    match app_windows {
        Some(w) => {
            ops.push(
                CacheOp::Reg(
                    RegOp::Update { addr: APP_CACHE_CTRL, clear: 0, set: PRO_CACHE_ENABLE },
                ),
            );
            ops.push(
                CacheOp::Reg(
                    RegOp::Update {
                        addr: APP_CACHE_CTRL1,
                        clear: PRO_CACHE_MASK,
                        set: w & PRO_CACHE_MASK,
                    },
                ),
            );
            ops.push(CacheOp::ReleaseApp);
        },
        None => {},
    }
    if hooked {
        ops.push(CacheOp::RestoreInterrupts);
    }
    ops.push(CacheOp::RestoreLevel);
    assert(ops@ =~= enabling(hooked, windows, app_windows));
    ops
}

/// What a window without a cache needs next.
#[derive(Debug)]
pub enum Ask {
    /// Perform these steps.
    Perform(Vec<CacheOp>),
    /// Read [`PRO_DCACHE_DBUG0`].
    Look,
    /// Say whether the other core is running.
    OtherCore,
    /// Do what the window is for.
    Body,
    /// Nothing; this is how it ended, and what to leave behind about a busy cache.
    Return { result: Result<(), FlashError>, trace: Option<u32> },
}

/// An [`Ask`] with its steps as a sequence.
pub enum AskView {
    Perform(Seq<CacheOp>),
    Look,
    OtherCore,
    Body,
    Return { result: Result<(), FlashError>, trace: Option<u32> },
}

impl View for Ask {
    type V = AskView;

    open spec fn view(&self) -> AskView {
        match *self {
            Ask::Perform(ops) => AskView::Perform(ops@),
            Ask::Look => AskView::Look,
            Ask::OtherCore => AskView::OtherCore,
            Ask::Body => AskView::Body,
            Ask::Return { result, trace } => AskView::Return { result, trace },
        }
    }
}

/// What the one that opens the window hands back.
#[derive(Clone, Copy, Debug)]
pub enum Answer {
    /// A window begins.
    Start,
    /// The steps were performed; these are the windows that one of them kept, if one
    /// did.
    Performed(u32),
    /// What [`PRO_DCACHE_DBUG0`] held.
    State(u32),
    /// Whether the other core is running.
    Running(bool),
    /// What the window was for came to this.
    Finished(Result<(), FlashError>),
}

/// How far a window has come.
#[derive(Clone, Copy, Debug, PartialEq, Eq, Structural)]
pub enum WindowStage {
    Closed,
    Approaching,
    /// So many looks at the cache were in vain.
    Looking(u32),
    /// The cache did not come to rest; this is what to leave behind about it.
    Retreating(u32),
    Asking,
    Disabling,
    Open,
    Enabling,
}

/// A window without a cache.
#[derive(Clone, Copy, Debug)]
pub struct Window {
    /// Something masks the interrupts that cannot do without the cache.
    pub hooked: bool,
    pub stage: WindowStage,
    /// The windows that this core's cache served.
    pub windows: u32,
    pub app_running: bool,
    /// The windows that the other core's cache served.
    pub app_windows: u32,
    /// What the window was for came to this.
    pub result: Result<(), FlashError>,
}

/// The answers that a stage can be given.
pub open spec fn answers(stage: WindowStage, answer: Answer) -> bool {
    match answer {
        Answer::Start => stage is Closed,
        Answer::Performed(kept) => stage is Approaching || stage is Retreating || stage is Disabling
            || stage is Enabling,
        Answer::State(dbug0) => stage matches WindowStage::Looking(spins) && spins
            < CACHE_IDLE_SPINS,
        Answer::Running(running) => stage is Asking,
        Answer::Finished(result) => stage is Open,
    }
}

/// The whole of a window: from what was handed back to what is needed next.
pub open spec fn proceeded(w: Window, answer: Answer) -> (Window, AskView) {
    match (w.stage, answer) {
        (WindowStage::Closed, Answer::Start) => (
            Window { stage: WindowStage::Approaching, ..w },
            AskView::Perform(approaching(w.hooked)),
        ),
        (WindowStage::Approaching, Answer::Performed(kept)) => (
            Window { stage: WindowStage::Looking(0), windows: kept, ..w },
            AskView::Look,
        ),
        (WindowStage::Looking(spins), Answer::State(dbug0)) => if cache_state(dbug0)
            == PRO_CACHE_STATE_IDLE {
            (Window { stage: WindowStage::Asking, ..w }, AskView::OtherCore)
        } else if spins + 1 >= CACHE_IDLE_SPINS {
            (
                Window { stage: WindowStage::Retreating(cache_state(dbug0) | 0x8000_0000), ..w },
                AskView::Perform(retreating(w.hooked)),
            )
        } else {
            (Window { stage: WindowStage::Looking((spins + 1) as u32), ..w }, AskView::Look)
        },
        (WindowStage::Retreating(state), Answer::Performed(kept)) => (
            Window { stage: WindowStage::Closed, ..w },
            AskView::Return { result: Err(FlashError::CacheBusy), trace: Some(state) },
        ),
        (WindowStage::Asking, Answer::Running(running)) => (
            Window { stage: WindowStage::Disabling, app_running: running, ..w },
            AskView::Perform(disabling(w.hooked, running)),
        ),
        (WindowStage::Disabling, Answer::Performed(kept)) => (
            Window { stage: WindowStage::Open, app_windows: kept, ..w },
            AskView::Body,
        ),
        (WindowStage::Open, Answer::Finished(result)) => (
            Window { stage: WindowStage::Enabling, result, ..w },
            AskView::Perform(
                enabling(
                    w.hooked,
                    w.windows,
                    if w.app_running {
                        Some(w.app_windows)
                    } else {
                        None
                    },
                ),
            ),
        ),
        (_, _) => (
            Window { stage: WindowStage::Closed, ..w },
            AskView::Return { result: w.result, trace: None },
        ),
    }
}

impl Window {
    /// A window that has not been opened, given whether there is a hook that masks the
    /// interrupts which cannot do without the cache.
    pub fn new(hooked: bool) -> (w: Self)
        ensures
            w == (Window {
                hooked,
                stage: WindowStage::Closed,
                windows: 0,
                app_running: false,
                app_windows: 0,
                result: Ok(()),
            }),
    {
        Window {
            hooked,
            stage: WindowStage::Closed,
            windows: 0,
            app_running: false,
            app_windows: 0,
            result: Ok(()),
        }
    }

    /// Goes on by what was handed back and says what is needed next, until it says how
    /// the operation that needed the window ended.
    pub fn with_cache_off(&mut self, answer: Answer) -> (ask: Ask)
        requires
            answers(old(self).stage, answer),
        ensures
            (*final(self), ask@) == proceeded(*old(self), answer),
    {
        match (self.stage, answer) {
            (WindowStage::Closed, Answer::Start) => {
                self.stage = WindowStage::Approaching;
                Ask::Perform(approach(self.hooked))
            },
            (WindowStage::Approaching, Answer::Performed(kept)) => {
                self.windows = kept;
                self.stage = WindowStage::Looking(0);
                Ask::Look
            },
            (WindowStage::Looking(spins), Answer::State(dbug0)) => match cache_idle(dbug0, spins) {
                CacheIdle::Idle => {
                    self.stage = WindowStage::Asking;
                    Ask::OtherCore
                },
                CacheIdle::Again => {
                    self.stage = WindowStage::Looking(spins + 1);
                    Ask::Look
                },
                CacheIdle::Busy(state) => {
                    self.stage = WindowStage::Retreating(state);
                    Ask::Perform(retreat(self.hooked))
                },
            },
            (WindowStage::Retreating(state), Answer::Performed(_)) => {
                self.stage = WindowStage::Closed;
                Ask::Return { result: Err(FlashError::CacheBusy), trace: Some(state) }
            },
            (WindowStage::Asking, Answer::Running(running)) => {
                self.app_running = running;
                self.stage = WindowStage::Disabling;
                Ask::Perform(disable(self.hooked, running))
            },
            (WindowStage::Disabling, Answer::Performed(kept)) => {
                self.app_windows = kept;
                self.stage = WindowStage::Open;
                Ask::Body
            },
            (WindowStage::Open, Answer::Finished(result)) => {
                self.result = result;
                self.stage = WindowStage::Enabling;
                Ask::Perform(
                    enable(
                        self.hooked,
                        self.windows,
                        if self.app_running {
                            Some(self.app_windows)
                        } else {
                            None
                        },
                    ),
                )
            },
            _ => {
                self.stage = WindowStage::Closed;
                Ask::Return { result: self.result, trace: None }
            },
        }
    }
}

/// A window after some answers.
pub open spec fn proceeded_all(w: Window, given: Seq<Answer>) -> Window
    decreases given.len(),
{
    if given.len() == 0 {
        w
    } else {
        proceeded(proceeded_all(w, given.drop_last()), given.last()).0
    }
}

/// What a window asks for after some answers, the last of them `answer`.
pub open spec fn asked(w: Window, given: Seq<Answer>, answer: Answer) -> AskView {
    proceeded(proceeded_all(w, given), answer).1
}

/// Looks at a cache that is busy each time.
pub open spec fn busy_looks(states: Seq<u32>) -> bool {
    forall|i: int|
        0 <= i < states.len() ==> cache_state(#[trigger] states[i]) != PRO_CACHE_STATE_IDLE
}

/// The answers of a window up to its looks at the cache.
pub open spec fn opening(windows: u32, states: Seq<u32>) -> Seq<Answer> {
    seq![Answer::Start, Answer::Performed(windows)] + states.map_values(|s: u32| Answer::State(s))
}

/// The steps that a window has had performed after some answers.
pub open spec fn performed(w: Window, given: Seq<Answer>) -> Seq<CacheOp>
    decreases given.len(),
{
    if given.len() == 0 {
        Seq::empty()
    } else {
        performed(w, given.drop_last()) + (match asked(w, given.drop_last(), given.last()) {
            AskView::Perform(ops) => ops,
            _ => Seq::empty(),
        })
    }
}

/// How often a window has asked for what it is for after some answers.
pub open spec fn bodies(w: Window, given: Seq<Answer>) -> int
    decreases given.len(),
{
    if given.len() == 0 {
        0
    } else {
        bodies(w, given.drop_last()) + if asked(w, given.drop_last(), given.last()) is Body {
            1int
        } else {
            0
        }
    }
}

/// One more answer.
proof fn lemma_answered(w: Window, given: Seq<Answer>, answer: Answer)
    ensures
        proceeded_all(w, given.push(answer)) == proceeded(proceeded_all(w, given), answer).0,
        performed(w, given.push(answer)) == performed(w, given) + (match asked(w, given, answer) {
            AskView::Perform(ops) => ops,
            _ => Seq::empty(),
        }),
        bodies(w, given.push(answer)) == bodies(w, given) + if asked(w, given, answer) is Body {
            1int
        } else {
            0
        },
{
    assert(given.push(answer).drop_last() =~= given);
}

proof fn lemma_looking(w: Window, windows: u32, states: Seq<u32>)
    requires
        w.stage is Closed,
        busy_looks(states),
        states.len() < CACHE_IDLE_SPINS,
    ensures
        proceeded_all(w, opening(windows, states)) == (Window {
            stage: WindowStage::Looking(states.len() as u32),
            windows,
            ..w
        }),
        performed(w, opening(windows, states)) == approaching(w.hooked),
        bodies(w, opening(windows, states)) == 0,
    decreases states.len(),
{
    let given = opening(windows, states);
    if states.len() == 0 {
        let none = Seq::<Answer>::empty();
        lemma_answered(w, none, Answer::Start);
        lemma_answered(w, none.push(Answer::Start), Answer::Performed(windows));
        assert(given =~= none.push(Answer::Start).push(Answer::Performed(windows)));
        assert(performed(w, given) =~= approaching(w.hooked));
    } else {
        let before = states.drop_last();
        assert(given =~= opening(windows, before).push(Answer::State(states.last())));
        assert(cache_state(states[states.len() - 1]) != PRO_CACHE_STATE_IDLE);
        lemma_busy_before(states);
        lemma_looking(w, windows, before);
        lemma_answered(w, opening(windows, before), Answer::State(states.last()));
        assert(performed(w, given) =~= approaching(w.hooked));
    }
}

proof fn lemma_busy_before(states: Seq<u32>)
    requires
        busy_looks(states),
        states.len() > 0,
    ensures
        busy_looks(states.drop_last()),
{
    assert forall|i: int| 0 <= i < states.drop_last().len() implies cache_state(
        #[trigger] states.drop_last()[i],
    ) != PRO_CACHE_STATE_IDLE by {
        assert(states.drop_last()[i] == states[i]);
    }
}

/// The answers of a window up to the moment it asks for what it is for.
pub open spec fn until_open(
    windows: u32,
    states: Seq<u32>,
    idle: u32,
    running: bool,
    app_windows: u32,
) -> Seq<Answer> {
    opening(windows, states).push(Answer::State(idle)).push(Answer::Running(running)).push(
        Answer::Performed(app_windows),
    )
}

/// A cache that comes to rest in time opens the window: the caches go off, what the
/// window is for is asked for once, the caches come back with the windows they served,
/// and the window ends as what it was for did.
pub proof fn law_a_cache_at_rest_opens_the_window(
    w: Window,
    windows: u32,
    states: Seq<u32>,
    idle: u32,
    running: bool,
    app_windows: u32,
    result: Result<(), FlashError>,
    kept: u32,
)
    requires
        w.stage is Closed,
        busy_looks(states),
        states.len() < CACHE_IDLE_SPINS,
        cache_state(idle) == PRO_CACHE_STATE_IDLE,
    ensures
        ({
            let looked = opening(windows, states);
            let found = looked.push(Answer::State(idle));
            let off = found.push(Answer::Running(running));
            let open = until_open(windows, states, idle, running, app_windows);
            let done = open.push(Answer::Finished(result));
            let end = done.push(Answer::Performed(kept));
            let off_ops = disabling(w.hooked, running);
            let on_ops = enabling(
                w.hooked,
                windows,
                if running {
                    Some(app_windows)
                } else {
                    None
                },
            );
            &&& asked(w, Seq::empty(), Answer::Start) == AskView::Perform(approaching(w.hooked))
            &&& asked(w, looked, Answer::State(idle)) == AskView::OtherCore
            &&& asked(w, found, Answer::Running(running)) == AskView::Perform(off_ops)
            &&& asked(w, off, Answer::Performed(app_windows)) == AskView::Body
            &&& asked(w, open, Answer::Finished(result)) == AskView::Perform(on_ops)
            &&& asked(w, done, Answer::Performed(kept)) == (AskView::Return { result, trace: None })
            &&& performed(w, open) == approaching(w.hooked) + off_ops
            &&& performed(w, end) == approaching(w.hooked) + off_ops + on_ops
            &&& bodies(w, end) == 1
        }),
{
    lemma_looking(w, windows, states);
    let looked = opening(windows, states);
    let found = looked.push(Answer::State(idle));
    let off = found.push(Answer::Running(running));
    let open = off.push(Answer::Performed(app_windows));
    let done = open.push(Answer::Finished(result));
    let end = done.push(Answer::Performed(kept));
    lemma_answered(w, looked, Answer::State(idle));
    lemma_answered(w, found, Answer::Running(running));
    lemma_answered(w, off, Answer::Performed(app_windows));
    lemma_answered(w, open, Answer::Finished(result));
    lemma_answered(w, done, Answer::Performed(kept));
    let off_ops = disabling(w.hooked, running);
    assert(performed(w, found) =~= approaching(w.hooked));
    assert(performed(w, open) =~= approaching(w.hooked) + off_ops);
    assert(performed(w, end) =~= performed(w, done));
}

/// A cache that never comes to rest is left alone: after the last look the window is
/// given up and the operation fails, without having asked for what it was for.
pub proof fn law_a_busy_cache_is_given_up(w: Window, windows: u32, states: Seq<u32>, kept: u32)
    requires
        w.stage is Closed,
        busy_looks(states),
        states.len() == CACHE_IDLE_SPINS,
    ensures
        asked(w, opening(windows, states.drop_last()), Answer::State(states.last()))
            == AskView::Perform(retreating(w.hooked)),
        asked(w, opening(windows, states), Answer::Performed(kept)) == (AskView::Return {
            result: Err(FlashError::CacheBusy),
            trace: Some(cache_state(states.last()) | 0x8000_0000),
        }),
        performed(w, opening(windows, states)) == approaching(w.hooked) + retreating(w.hooked),
        bodies(w, opening(windows, states)) == 0,
{
    let before = states.drop_last();
    lemma_busy_before(states);
    lemma_looking(w, windows, before);
    assert(cache_state(states[states.len() - 1]) != PRO_CACHE_STATE_IDLE);
    assert(opening(windows, states) =~= opening(windows, before).push(
        Answer::State(states.last()),
    ));
    lemma_answered(w, opening(windows, before), Answer::State(states.last()));
}

/// The level at which no interrupt is let through.
pub const NO_INTERRUPTS: u32 = 5;

/// The machine, as far as a window touches it.
pub struct Machine {
    pub registers: super::Registers,
    /// Interrupts up to this level are kept away.
    pub level: u32,
    /// The level that raising it found.
    pub kept_level: u32,
    /// The interrupts that need the cache are masked.
    pub masked: bool,
    pub app_running: bool,
}

/// No interrupt is let through.
pub open spec fn raised(m: Machine) -> bool {
    m.level >= NO_INTERRUPTS
}

/// The machine after one step.
pub open spec fn stepped(m: Machine, op: CacheOp) -> Machine {
    match op {
        CacheOp::RaiseLevel => Machine { level: NO_INTERRUPTS, kept_level: m.level, ..m },
        CacheOp::RestoreLevel => Machine { level: m.kept_level, ..m },
        CacheOp::MaskInterrupts => Machine { masked: true, ..m },
        CacheOp::RestoreInterrupts => Machine { masked: false, ..m },
        CacheOp::SaveWindows => m,
        CacheOp::SaveAppWindows => m,
        CacheOp::StallApp => Machine { app_running: false, ..m },
        CacheOp::ReleaseApp => Machine { app_running: true, ..m },
        CacheOp::Reg(op) => Machine { registers: super::after(m.registers, op), ..m },
    }
}

/// The machine after some steps.
pub open spec fn stepped_all(m: Machine, ops: Seq<CacheOp>) -> Machine
    decreases ops.len(),
{
    if ops.len() == 0 {
        m
    } else {
        stepped(stepped_all(m, ops.drop_last()), ops.last())
    }
}

/// A cache is on.
pub open spec fn serves(m: Machine, ctrl: u32) -> bool {
    m.registers.words[ctrl] & PRO_CACHE_ENABLE != 0
}

/// Nothing fetches through a cache that is off: interrupts that need this core's are
/// kept away, with all others if need be, and the other core is halted.
pub open spec fn safe(m: Machine) -> bool {
    &&& !serves(m, PRO_CACHE_CTRL) ==> m.masked || raised(m)
    &&& !serves(m, APP_CACHE_CTRL) ==> !m.app_running
}

/// The machine as a window finds it: at any level, nothing masked, the caches of
/// whatever runs on.
pub open spec fn ready_for_a_window(m: Machine) -> bool {
    &&& !m.masked
    &&& serves(m, PRO_CACHE_CTRL)
    &&& m.app_running ==> serves(m, APP_CACHE_CTRL)
    &&& m.registers.words.dom().contains(PRO_CACHE_CTRL)
    &&& m.registers.words.dom().contains(PRO_CACHE_CTRL1)
    &&& m.registers.words.dom().contains(APP_CACHE_CTRL)
    &&& m.registers.words.dom().contains(APP_CACHE_CTRL1)
}

/// The windows that this core's cache serves.
pub open spec fn windows_of(m: Machine) -> u32 {
    m.registers.words[PRO_CACHE_CTRL1] & PRO_CACHE_MASK
}

/// The windows that the other core's cache serves, where it is to be brought back.
pub open spec fn app_windows_of(m: Machine) -> Option<u32> {
    if m.app_running {
        Some(m.registers.words[APP_CACHE_CTRL1] & PRO_CACHE_MASK)
    } else {
        None
    }
}

/// The machine as a window leaves it, which remembers the level it was found at.
pub open spec fn undone(m: Machine) -> Machine {
    Machine { kept_level: m.level, ..m }
}

/// A list of steps, one after the other.
proof fn lemma_steps(m: Machine, ops: Seq<CacheOp>)
    requires
        ops.len() <= 8,
    ensures
        ops.take(ops.len() as int) == ops,
        stepped_all(m, ops.take(0)) == m,
        1 <= ops.len() ==> stepped_all(m, ops.take(1)) == stepped(m, ops[0]),
        2 <= ops.len() ==> stepped_all(m, ops.take(2)) == stepped(
            stepped_all(m, ops.take(1)),
            ops[1],
        ),
        3 <= ops.len() ==> stepped_all(m, ops.take(3)) == stepped(
            stepped_all(m, ops.take(2)),
            ops[2],
        ),
        4 <= ops.len() ==> stepped_all(m, ops.take(4)) == stepped(
            stepped_all(m, ops.take(3)),
            ops[3],
        ),
        5 <= ops.len() ==> stepped_all(m, ops.take(5)) == stepped(
            stepped_all(m, ops.take(4)),
            ops[4],
        ),
        6 <= ops.len() ==> stepped_all(m, ops.take(6)) == stepped(
            stepped_all(m, ops.take(5)),
            ops[5],
        ),
        7 <= ops.len() ==> stepped_all(m, ops.take(7)) == stepped(
            stepped_all(m, ops.take(6)),
            ops[6],
        ),
        8 <= ops.len() ==> stepped_all(m, ops.take(8)) == stepped(
            stepped_all(m, ops.take(7)),
            ops[7],
        ),
{
    assert(ops.take(ops.len() as int) =~= ops);
    assert(ops.take(0) =~= Seq::empty());
    assert forall|k: int| 0 < k <= ops.len() implies stepped_all(m, #[trigger] ops.take(k))
        == stepped(stepped_all(m, ops.take(k - 1)), ops[k - 1]) by {
        assert(ops.take(k).drop_last() =~= ops.take(k - 1));
    }
}

/// A window that is abandoned leaves the machine as it found it.
pub proof fn law_a_busy_cache_changes_nothing(hooked: bool, m: Machine)
    requires
        ready_for_a_window(m),
    ensures
        stepped_all(m, approaching(hooked) + retreating(hooked)) == undone(m),
{
    lemma_steps(m, approaching(hooked) + retreating(hooked));
}

proof fn lemma_cache_bits(x: u32)
    by (bit_vector)
    ensures
        ((x & !(1u32 << 3)) | 0) & (1u32 << 3) == 0,
        ((x & !0u32) | (1u32 << 3)) & (1u32 << 3) != 0,
        x & (1u32 << 3) != 0 ==> ((((x & !(1u32 << 3)) | 0) & !0u32) | (1u32 << 3)) == x,
        ((x & !0x3Fu32) | ((x & 0x3F) & 0x3F)) == x,
        (x >> 7u32) & 0xFFF == x / 128 % 4096,
        x < 4096 ==> x | 0x8000_0000 == x + 0x8000_0000,
        1u32 << 3 == 8,
{
}

/// The list that a window without a cache comes to.
pub open spec fn whole_window(hooked: bool, m: Machine) -> Seq<CacheOp> {
    approaching(hooked) + disabling(hooked, m.app_running) + enabling(
        hooked,
        windows_of(m),
        app_windows_of(m),
    )
}

proof fn lemma_stepped_append(m: Machine, a: Seq<CacheOp>, b: Seq<CacheOp>)
    ensures
        stepped_all(m, a + b) == stepped_all(stepped_all(m, a), b),
    decreases b.len(),
{
    if b.len() == 0 {
        assert(a + b =~= a);
    } else {
        assert((a + b).drop_last() =~= a + b.drop_last());
        lemma_stepped_append(m, a, b.drop_last());
    }
}

/// The machine between [`disable`] and [`enable`].
pub open spec fn inside(hooked: bool, m: Machine) -> Machine {
    stepped_all(m, approaching(hooked) + disabling(hooked, m.app_running))
}

/// What a window is for runs with the caches off and the other core halted. With a
/// hook that is at the level that the window found; without one no interrupt is let
/// through meanwhile.
#[verifier::spinoff_prover]
#[verifier::rlimit(40)]
pub proof fn law_inside_a_window(hooked: bool, m: Machine)
    requires
        ready_for_a_window(m),
    ensures
        inside(hooked, m).level == if hooked {
            m.level
        } else {
            NO_INTERRUPTS
        },
        !hooked ==> raised(inside(hooked, m)),
        inside(hooked, m).kept_level == m.level,
        inside(hooked, m).masked == hooked,
        !inside(hooked, m).app_running,
        !serves(inside(hooked, m), PRO_CACHE_CTRL),
        m.app_running ==> !serves(inside(hooked, m), APP_CACHE_CTRL),
        inside(hooked, m).registers.held == m.registers.held,
        inside(hooked, m).registers.words == if m.app_running {
            m.registers.words.insert(
                APP_CACHE_CTRL,
                super::updated(m.registers.words[APP_CACHE_CTRL], PRO_CACHE_ENABLE, 0),
            ).insert(
                PRO_CACHE_CTRL,
                super::updated(m.registers.words[PRO_CACHE_CTRL], PRO_CACHE_ENABLE, 0),
            )
        } else {
            m.registers.words.insert(
                PRO_CACHE_CTRL,
                super::updated(m.registers.words[PRO_CACHE_CTRL], PRO_CACHE_ENABLE, 0),
            )
        },
{
    lemma_cache_bits(m.registers.words[PRO_CACHE_CTRL]);
    lemma_cache_bits(m.registers.words[APP_CACHE_CTRL]);
    lemma_steps(m, approaching(hooked) + disabling(hooked, m.app_running));
}

/// A window puts back everything it touched: the level and the interrupts, both caches
/// with the windows they served, and the other core, running or not.
#[verifier::spinoff_prover]
#[verifier::rlimit(40)]
pub proof fn law_a_window_is_undone(hooked: bool, m: Machine)
    requires
        ready_for_a_window(m),
    ensures
        stepped_all(m, whole_window(hooked, m)) == undone(m),
{
    law_inside_a_window(hooked, m);
    let back = enabling(hooked, windows_of(m), app_windows_of(m));
    lemma_stepped_append(m, approaching(hooked) + disabling(hooked, m.app_running), back);
    lemma_cache_bits(m.registers.words[PRO_CACHE_CTRL]);
    lemma_cache_bits(m.registers.words[PRO_CACHE_CTRL1]);
    lemma_cache_bits(m.registers.words[APP_CACHE_CTRL]);
    lemma_cache_bits(m.registers.words[APP_CACHE_CTRL1]);
    lemma_steps(inside(hooked, m), back);
    let end = stepped_all(inside(hooked, m), back);
    assert(end.registers.words =~= m.registers.words);
}

/// At no step of a window does anything fetch through a cache that is off.
pub proof fn law_nothing_fetches_without_a_cache(hooked: bool, m: Machine, k: int)
    requires
        ready_for_a_window(m),
        0 <= k <= whole_window(hooked, m).len(),
    ensures
        safe(stepped_all(m, whole_window(hooked, m).take(k))),
{
    let there = approaching(hooked) + disabling(hooked, m.app_running);
    let back = enabling(hooked, windows_of(m), app_windows_of(m));
    lemma_halves(m, there, back, k);
    if k <= there.len() {
        lemma_safe_before(hooked, m, k);
    } else {
        law_inside_a_window(hooked, m);
        lemma_safe_after(
            hooked,
            inside(hooked, m),
            windows_of(m),
            app_windows_of(m),
            k - there.len(),
        );
    }
}

proof fn lemma_safe_before(hooked: bool, m: Machine, k: int)
    requires
        ready_for_a_window(m),
        0 <= k <= (approaching(hooked) + disabling(hooked, m.app_running)).len(),
    ensures
        ({
            let there = approaching(hooked) + disabling(hooked, m.app_running);
            safe(stepped_all(m, there.take(k)))
        }),
{
    if hooked {
        if m.app_running {
            lemma_safe_before_hooked_both(m, k);
        } else {
            lemma_safe_before_hooked_alone(m, k);
        }
    } else {
        if m.app_running {
            lemma_safe_before_unhooked_both(m, k);
        } else {
            lemma_safe_before_unhooked_alone(m, k);
        }
    }
}

#[verifier::spinoff_prover]
#[verifier::rlimit(40)]
proof fn lemma_safe_before_hooked_both(m: Machine, k: int)
    requires
        ready_for_a_window(m),
        m.app_running,
        0 <= k <= (approaching(true) + disabling(true, true)).len(),
    ensures
        safe(stepped_all(m, (approaching(true) + disabling(true, true)).take(k))),
{
    lemma_cache_bits(m.registers.words[PRO_CACHE_CTRL]);
    lemma_cache_bits(m.registers.words[APP_CACHE_CTRL]);
    lemma_steps(m, approaching(true) + disabling(true, true));
}

#[verifier::spinoff_prover]
#[verifier::rlimit(40)]
proof fn lemma_safe_before_hooked_alone(m: Machine, k: int)
    requires
        ready_for_a_window(m),
        !m.app_running,
        0 <= k <= (approaching(true) + disabling(true, false)).len(),
    ensures
        safe(stepped_all(m, (approaching(true) + disabling(true, false)).take(k))),
{
    lemma_cache_bits(m.registers.words[PRO_CACHE_CTRL]);
    lemma_cache_bits(m.registers.words[APP_CACHE_CTRL]);
    lemma_steps(m, approaching(true) + disabling(true, false));
}

#[verifier::spinoff_prover]
#[verifier::rlimit(40)]
proof fn lemma_safe_before_unhooked_both(m: Machine, k: int)
    requires
        ready_for_a_window(m),
        m.app_running,
        0 <= k <= (approaching(false) + disabling(false, true)).len(),
    ensures
        safe(stepped_all(m, (approaching(false) + disabling(false, true)).take(k))),
{
    lemma_cache_bits(m.registers.words[PRO_CACHE_CTRL]);
    lemma_cache_bits(m.registers.words[APP_CACHE_CTRL]);
    lemma_steps(m, approaching(false) + disabling(false, true));
}

#[verifier::spinoff_prover]
#[verifier::rlimit(40)]
proof fn lemma_safe_before_unhooked_alone(m: Machine, k: int)
    requires
        ready_for_a_window(m),
        !m.app_running,
        0 <= k <= (approaching(false) + disabling(false, false)).len(),
    ensures
        safe(stepped_all(m, (approaching(false) + disabling(false, false)).take(k))),
{
    lemma_cache_bits(m.registers.words[PRO_CACHE_CTRL]);
    lemma_cache_bits(m.registers.words[APP_CACHE_CTRL]);
    lemma_steps(m, approaching(false) + disabling(false, false));
}

#[verifier::spinoff_prover]
#[verifier::rlimit(40)]
proof fn lemma_safe_after(
    hooked: bool,
    inside: Machine,
    windows: u32,
    app_windows: Option<u32>,
    k: int,
)
    requires
        inside.masked == hooked,
        !hooked ==> raised(inside),
        !inside.app_running,
        0 < k <= enabling(hooked, windows, app_windows).len(),
    ensures
        safe(stepped_all(inside, enabling(hooked, windows, app_windows).take(k))),
{
    lemma_cache_bits(inside.registers.words[PRO_CACHE_CTRL]);
    lemma_cache_bits(inside.registers.words[APP_CACHE_CTRL]);
    lemma_steps(inside, enabling(hooked, windows, app_windows));
}

/// Part of a list in two halves lies in the first, or ends in the second.
proof fn lemma_halves(m: Machine, there: Seq<CacheOp>, back: Seq<CacheOp>, k: int)
    requires
        0 <= k <= (there + back).len(),
    ensures
        stepped_all(m, (there + back).take(k)) == if k <= there.len() {
            stepped_all(m, there.take(k))
        } else {
            stepped_all(stepped_all(m, there), back.take(k - there.len()))
        },
{
    if k <= there.len() {
        assert((there + back).take(k) =~= there.take(k));
    } else {
        assert((there + back).take(k) =~= there + back.take(k - there.len()));
        lemma_stepped_append(m, there, back.take(k - there.len()));
    }
}

/// Without a hook no interrupt is let through from a window's first step to its last,
/// and so not while what it is for runs.
pub proof fn law_without_a_hook_nothing_interrupts(m: Machine, k: int)
    requires
        ready_for_a_window(m),
        0 < k < whole_window(false, m).len(),
    ensures
        raised(stepped_all(m, whole_window(false, m).take(k))),
{
    let there = approaching(false) + disabling(false, m.app_running);
    let back = enabling(false, windows_of(m), app_windows_of(m));
    lemma_halves(m, there, back, k);
    if k <= there.len() {
        lemma_steps(m, there);
    } else {
        law_inside_a_window(false, m);
        lemma_steps(inside(false, m), back);
    }
}

/// An operation whose cache comes to rest in time runs what it is for once, ends as
/// that did, and leaves the machine as it found it. Meanwhile the interrupts that need
/// the cache are masked, or where nothing masks those, all of them are kept away.
pub proof fn law_an_operation_runs_in_a_window(
    w: Window,
    m: Machine,
    states: Seq<u32>,
    idle: u32,
    app_windows: u32,
    result: Result<(), FlashError>,
    kept: u32,
)
    requires
        w.stage is Closed,
        ready_for_a_window(m),
        busy_looks(states),
        states.len() < CACHE_IDLE_SPINS,
        cache_state(idle) == PRO_CACHE_STATE_IDLE,
        m.app_running ==> Some(app_windows) == app_windows_of(m),
    ensures
        ({
            let open = until_open(windows_of(m), states, idle, m.app_running, app_windows);
            let done = open.push(Answer::Finished(result));
            let end = done.push(Answer::Performed(kept));
            let during = stepped_all(m, performed(w, open));
            &&& asked(w, open.drop_last(), open.last()) is Body
            &&& bodies(w, end) == 1
            &&& during.masked == w.hooked
            &&& w.hooked ==> during.level == m.level
            &&& !w.hooked ==> raised(during)
            &&& asked(w, done, Answer::Performed(kept)) == (AskView::Return { result, trace: None })
            &&& stepped_all(m, performed(w, end)) == undone(m)
        }),
{
    let windows = windows_of(m);
    let running = m.app_running;
    law_a_cache_at_rest_opens_the_window(
        w,
        windows,
        states,
        idle,
        running,
        app_windows,
        result,
        kept,
    );
    let open = until_open(windows, states, idle, running, app_windows);
    let off = opening(windows, states).push(Answer::State(idle)).push(Answer::Running(running));
    assert(open.drop_last() =~= off);
    law_inside_a_window(w.hooked, m);
    law_a_window_is_undone(w.hooked, m);
}

/// Whole words of a region are found as far into the chip's part as into the region; what is
/// not whole words is refused as that, and what is not inside as that.
pub proof fn law_an_access_is_placed_or_refused(r: FlashRegion, offset: int, len: int)
    requires
        r.wf(),
        offset >= 0,
        len >= 0,
    ensures
        match located(r, offset, len) {
            Ok(at) => at - r.base == offset && offset % 4 == 0 && len % 4 == 0 && offset + len
                <= r.len,
            Err(e) => if offset % 4 != 0 || len % 4 != 0 {
                e is Misaligned
            } else {
                e is OutOfRange && offset + len > r.len
            },
        },
{
}

/// The sector that holds an offset begins at a multiple of 4096 in the region, and holds it; it
/// is refused only where it is not wholly inside.
pub proof fn law_a_sector_holds_its_offset(r: FlashRegion, offset: int)
    requires
        r.wf(),
        offset >= 0,
    ensures
        match sector_at(r, offset) {
            Ok(at) => (at - r.base) % 4096 == 0 && at - r.base <= offset < at - r.base + 4096 && at
                - r.base + 4096 <= r.len,
            Err(e) => e is OutOfRange && offset - offset % 4096 + 4096 > r.len,
        },
{
}

/// The cache is at rest in state one of twelve bits, and is given a hundred thousand looks; what
/// it was found in then is left behind with the top bit set.
pub proof fn law_a_cache_is_given_a_hundred_thousand_looks(dbug0: u32, spins: u32)
    ensures
        rested(dbug0, spins) is Idle == (dbug0 / 128 % 4096 == 1),
        rested(dbug0, spins) is Again == (dbug0 / 128 % 4096 != 1 && spins < 99_999),
        rested(dbug0, spins) matches CacheIdle::Busy(left) ==> left == 0x8000_0000 + dbug0 / 128
            % 4096,
{
    lemma_cache_bits(dbug0);
    lemma_cache_bits(cache_state(dbug0));
}

/// A chip's description is read word for word, and taken for one where its page is 256 bytes,
/// its sector 4096 and its size a mebibyte at least.
pub proof fn law_a_chip_is_described_in_order(words: Seq<u32>)
    requires
        words.len() == 6,
    ensures
        ({
            let c = described(words);
            &&& seq![
                c.device_id,
                c.chip_size,
                c.block_size,
                c.sector_size,
                c.page_size,
                c.status_mask,
            ] == words
            &&& sane_chip(c) == (words[4] == 256 && words[3] == 4096 && words[1] >= 1024 * 1024)
        }),
{
    let c = described(words);
    assert(seq![
        c.device_id,
        c.chip_size,
        c.block_size,
        c.sector_size,
        c.page_size,
        c.status_mask,
    ] =~= words);
}

/// The caches are switched where the chip has them, each by its own register, and given back
/// the six windows that each served.
pub proof fn law_the_caches_are_the_chips(hooked: bool, windows: u32, app: u32)
    ensures
        disabling(hooked, true)[2] == CacheOp::Reg(
            RegOp::Update { addr: 0x3FF0_0058, clear: 8, set: 0 },
        ),
        disabling(hooked, true)[3] == CacheOp::Reg(
            RegOp::Update { addr: 0x3FF0_0040, clear: 8, set: 0 },
        ),
        disabling(hooked, false)[0] == CacheOp::Reg(
            RegOp::Update { addr: 0x3FF0_0040, clear: 8, set: 0 },
        ),
        ({
            let back = enabling(hooked, windows, Some(app));
            let at = if hooked {
                1int
            } else {
                0
            };
            &&& back[at] == CacheOp::Reg(RegOp::Update { addr: 0x3FF0_0040, clear: 0, set: 8 })
            &&& back[at + 1] == CacheOp::Reg(
                RegOp::Update { addr: 0x3FF0_0044, clear: 0x3F, set: windows & 0x3F },
            )
            &&& back[at + 2] == CacheOp::Reg(RegOp::Update { addr: 0x3FF0_0058, clear: 0, set: 8 })
            &&& back[at + 3] == CacheOp::Reg(
                RegOp::Update { addr: 0x3FF0_005C, clear: 0x3F, set: app & 0x3F },
            )
        }),
{
    lemma_cache_bits(0);
}

} // verus!
