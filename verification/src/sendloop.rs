use vstd::prelude::*;

use vstd::arithmetic::div_mod::{lemma_basic_div, lemma_small_mod};

use crate::command::DrawCommand;
use crate::cursor::{cursor_x_at, cursor_y_at, lemma_cursor_step, lemma_cursor_y_monotonic};
use crate::error::FbError;
use crate::partition::ChunkSpec;

verus! {

/// The visible 24-bit color of a raw cell value: the low byte is
/// dropped.
pub open spec fn spec_rgb(raw: u32) -> u32 {
    raw >> 8u32
}

/// Drops the low byte of a raw cell value, leaving the 24-bit color.
pub fn strip_alpha(raw: u32) -> (rgb: u32)
    ensures
        rgb == spec_rgb(raw),
{
    raw >> 8u32
}

/// The draw commands one tick emits for `cells[i..]`: one command per
/// cell whose stripped color is non-zero, in cell order, each at the
/// coordinate the cursor reaches after `i` advances from the chunk's
/// start.
pub open spec fn spec_tick_cmds(cells: Seq<u32>, sx: int, sy: int, w: int, i: int) -> Seq<
    DrawCommand,
>
    decreases cells.len() - i,
{
    if i < 0 || i >= cells.len() {
        Seq::empty()
    } else {
        let rest = spec_tick_cmds(cells, sx, sy, w, i + 1);
        if spec_rgb(cells[i]) != 0 {
            seq![
                DrawCommand {
                    index: i as usize,
                    x: cursor_x_at(sx, w, i) as u16,
                    y: cursor_y_at(sx, sy, w, i) as u16,
                    color: spec_rgb(cells[i]),
                },
            ] + rest
        } else {
            rest
        }
    }
}

/// The chunk's cells after a fully successful tick: every cell that
/// was emitted is cleared to zero, every other cell is untouched.
pub open spec fn spec_after_tick(cells: Seq<u32>) -> Seq<u32> {
    Seq::new(
        cells.len(),
        |i: int|
            if spec_rgb(cells[i]) != 0 {
                0u32
            } else {
                cells[i]
            },
    )
}

/// The per-chunk send loop's state: the chunk's start coordinate and
/// length, the grid width its cursor wraps at, and the failure that
/// stopped it, if any. The loop performs no I/O itself: it decides
/// which commands a tick emits, which cells to clear, and whether it
/// is still running; its owner performs the sends and reports their
/// outcomes back.
pub struct SendLoop {
    pub start_x: u16,
    pub start_y: u16,
    pub width: u16,
    pub chunk_len: usize,
    pub failure: Option<FbError>,
}

impl SendLoop {
    /// The start column lies inside a row and the cursor's row cannot
    /// outgrow its `u16` even at the end of the chunk.
    pub open spec fn wf(self) -> bool {
        &&& self.width > 0
        &&& self.start_x < self.width
        &&& self.start_y + (self.start_x + self.chunk_len) / (self.width as int) <= 0xFFFF
    }

    /// A loop for one chunk of the grid, not yet failed.
    pub fn new(chunk: &ChunkSpec, width: u16) -> (s: SendLoop)
        requires
            width > 0,
            chunk.start_x < width,
            chunk.start_y + (chunk.start_x + chunk.len) / (width as int) <= 0xFFFF,
        ensures
            s == (SendLoop {
                start_x: chunk.start_x,
                start_y: chunk.start_y,
                width,
                chunk_len: chunk.len,
                failure: None::<FbError>,
            }),
            s.wf(),
    {
        SendLoop {
            start_x: chunk.start_x,
            start_y: chunk.start_y,
            width,
            chunk_len: chunk.len,
            failure: None,
        }
    }

    /// The loop keeps running exactly until a failure is recorded.
    pub fn is_active(&self) -> (b: bool)
        ensures
            b == (self.failure is None),
    {
        self.failure.is_none()
    }

    /// Walks the chunk once and returns the draw command for every
    /// cell holding a non-zero stripped color, in cell order, each at
    /// the cursor coordinate of its cell. Reads only; no cell changes.
    pub fn pending_commands(&self, cells: &Vec<u32>) -> (cmds: Vec<DrawCommand>)
        requires
            self.wf(),
            cells@.len() == self.chunk_len,
        ensures
            cmds@ == spec_tick_cmds(
                cells@,
                self.start_x as int,
                self.start_y as int,
                self.width as int,
                0,
            ),
            forall|k: int| 0 <= k < cmds@.len() ==> (#[trigger] cmds@[k]).wf(),
    {
        let ghost sx: int = self.start_x as int;
        let ghost sy: int = self.start_y as int;
        let ghost w: int = self.width as int;
        let n = cells.len();
        let mut cmds: Vec<DrawCommand> = Vec::new();
        let mut x: u16 = self.start_x;
        let mut y: u16 = self.start_y;
        let mut i: usize = 0;
        proof {
            lemma_small_mod(self.start_x as nat, self.width as nat);
            lemma_basic_div(sx, w);
        }
        while i < n
            invariant
                0 <= i <= n,
                n == cells@.len(),
                self.wf(),
                cells@.len() == self.chunk_len,
                sx == self.start_x as int,
                sy == self.start_y as int,
                w == self.width as int,
                x as int == cursor_x_at(sx, w, i as int),
                y as int == cursor_y_at(sx, sy, w, i as int),
                spec_tick_cmds(cells@, sx, sy, w, 0) =~= cmds@ + spec_tick_cmds(
                    cells@,
                    sx,
                    sy,
                    w,
                    i as int,
                ),
                forall|k: int| 0 <= k < cmds@.len() ==> (#[trigger] cmds@[k]).wf(),
            decreases n - i,
        {
            let raw = cells[i];
            let rgb = raw >> 8u32;
            proof {
                assert(raw >> 8u32 < 0x1000000) by (bit_vector);
            }
            if rgb != 0 {
                let cmd = DrawCommand { index: i, x, y, color: rgb };
                cmds.push(cmd);
                assert(spec_tick_cmds(cells@, sx, sy, w, 0) =~= cmds@ + spec_tick_cmds(
                    cells@,
                    sx,
                    sy,
                    w,
                    i + 1,
                ));
            }
            proof {
                lemma_cursor_step(sx, sy, w, i as int);
                lemma_cursor_y_monotonic(sx, sy, w, i + 1, cells@.len() as int);
            }
            if x + 1 >= self.width {
                x = 0;
                y = y + 1;
            } else {
                x = x + 1;
            }
            i = i + 1;
        }
        cmds
    }

    /// One fully successful tick on cells this loop owns: returns the
    /// commands of `pending_commands` and clears every emitted cell to
    /// zero, so an unchanged chunk emits nothing on the next tick.
    pub fn run_tick(&self, cells: &mut Vec<u32>) -> (cmds: Vec<DrawCommand>)
        requires
            self.wf(),
            old(cells)@.len() == self.chunk_len,
        ensures
            cmds@ == spec_tick_cmds(
                old(cells)@,
                self.start_x as int,
                self.start_y as int,
                self.width as int,
                0,
            ),
            forall|k: int| 0 <= k < cmds@.len() ==> (#[trigger] cmds@[k]).wf(),
            final(cells)@ == spec_after_tick(old(cells)@),
    {
        let cmds = self.pending_commands(cells);
        let n = cells.len();
        let mut i: usize = 0;
        while i < n
            invariant
                0 <= i <= n,
                n == old(cells)@.len(),
                cells@.len() == old(cells)@.len(),
                forall|j: int|
                    0 <= j < i ==> cells@[j] == (if spec_rgb(old(cells)@[j]) != 0 {
                        0u32
                    } else {
                        old(cells)@[j]
                    }),
                forall|j: int| i <= j < n ==> cells@[j] == old(cells)@[j],
            decreases n - i,
        {
            let raw = cells[i];
            if raw >> 8u32 != 0 {
                cells[i] = 0;
            }
            i = i + 1;
        }
        assert(cells@ =~= spec_after_tick(old(cells)@));
        cmds
    }

    /// Records the outcome of establishing this loop's connection: on
    /// failure the loop stops with `ConnectionFailed`. A failure
    /// already recorded is never overwritten or cleared.
    pub fn record_connect(&mut self, ok: bool)
        ensures
            final(self).start_x == old(self).start_x,
            final(self).start_y == old(self).start_y,
            final(self).width == old(self).width,
            final(self).chunk_len == old(self).chunk_len,
            final(self).failure == (if old(self).failure is Some {
                old(self).failure
            } else if ok {
                None::<FbError>
            } else {
                Some(FbError::ConnectionFailed)
            }),
    {
        if self.failure.is_none() && !ok {
            self.failure = Some(FbError::ConnectionFailed);
        }
    }

    /// Records the outcome of sending one command: on failure the loop
    /// stops with `SinkWriteFailed`. A failure already recorded is
    /// never overwritten or cleared: a stopped loop stays stopped.
    pub fn record_send(&mut self, ok: bool)
        ensures
            final(self).start_x == old(self).start_x,
            final(self).start_y == old(self).start_y,
            final(self).width == old(self).width,
            final(self).chunk_len == old(self).chunk_len,
            final(self).failure == (if old(self).failure is Some {
                old(self).failure
            } else if ok {
                None::<FbError>
            } else {
                Some(FbError::SinkWriteFailed)
            }),
    {
        if self.failure.is_none() && !ok {
            self.failure = Some(FbError::SinkWriteFailed);
        }
    }

    /// Records the outcome of flushing the connection at the end of a
    /// tick: on failure the loop stops with `SinkFlushFailed`, and a
    /// failure already recorded is never overwritten or cleared.
    pub fn record_flush(&mut self, ok: bool)
        ensures
            final(self).start_x == old(self).start_x,
            final(self).start_y == old(self).start_y,
            final(self).width == old(self).width,
            final(self).chunk_len == old(self).chunk_len,
            final(self).failure == (if old(self).failure is Some {
                old(self).failure
            } else if ok {
                None::<FbError>
            } else {
                Some(FbError::SinkFlushFailed)
            }),
    {
        if self.failure.is_none() && !ok {
            self.failure = Some(FbError::SinkFlushFailed);
        }
    }
}

/// Clearing is suppression: a tick over the cells a successful tick
/// left behind emits no command at all, so an unchanged pixel is never
/// sent twice.
pub proof fn lemma_tick_suppression(cells: Seq<u32>, sx: int, sy: int, w: int, i: int)
    ensures
        spec_tick_cmds(spec_after_tick(cells), sx, sy, w, i) =~= Seq::<DrawCommand>::empty(),
    decreases cells.len() - i,
{
    assert(0u32 >> 8u32 == 0u32) by (bit_vector);
    if 0 <= i < cells.len() {
        lemma_tick_suppression(cells, sx, sy, w, i + 1);
    }
}

/// Stripping undoes seeding: a cell seeded as `color << 8 | alpha`
/// yields back exactly `color`; the alpha byte cannot reach the
/// output.
pub proof fn lemma_strip_alpha_seed(color: u32, alpha: u32)
    requires
        color < 0x1000000,
        alpha < 0x100,
    ensures
        spec_rgb((color << 8u32) | alpha) == color,
{
    assert(((color << 8u32) | alpha) >> 8u32 == color) by (bit_vector)
        requires
            color < 0x1000000,
            alpha < 0x100,
    ;
}

proof fn lemma_single_seed_suffix(cells: Seq<u32>, sx: int, sy: int, w: int, k: int, i: int)
    requires
        0 <= k < cells.len(),
        spec_rgb(cells[k]) != 0,
        forall|j: int| 0 <= j < cells.len() && j != k ==> spec_rgb(#[trigger] cells[j]) == 0,
        0 <= i <= cells.len(),
    ensures
        i <= k ==> spec_tick_cmds(cells, sx, sy, w, i) =~= seq![
            DrawCommand {
                index: k as usize,
                x: cursor_x_at(sx, w, k) as u16,
                y: cursor_y_at(sx, sy, w, k) as u16,
                color: spec_rgb(cells[k]),
            },
        ],
        i > k ==> spec_tick_cmds(cells, sx, sy, w, i) =~= Seq::<DrawCommand>::empty(),
    decreases cells.len() - i,
{
    if i < cells.len() {
        lemma_single_seed_suffix(cells, sx, sy, w, k, i + 1);
    }
}

/// Round trip of a single seeded cell: when exactly one cell of the
/// chunk holds a pending color, the tick emits exactly one command,
/// for that cell, at the coordinate the cursor reaches after that
/// cell's number of advances, carrying the seeded color with its alpha
/// byte gone.
pub proof fn lemma_single_seed_round_trip(
    cells: Seq<u32>,
    sx: int,
    sy: int,
    w: int,
    k: int,
    color: u32,
    alpha: u32,
)
    requires
        0 <= k < cells.len(),
        color != 0,
        color < 0x1000000,
        alpha < 0x100,
        cells[k] == (color << 8u32) | alpha,
        forall|j: int| 0 <= j < cells.len() && j != k ==> spec_rgb(#[trigger] cells[j]) == 0,
    ensures
        spec_tick_cmds(cells, sx, sy, w, 0) =~= seq![
            DrawCommand {
                index: k as usize,
                x: cursor_x_at(sx, w, k) as u16,
                y: cursor_y_at(sx, sy, w, k) as u16,
                color,
            },
        ],
{
    lemma_strip_alpha_seed(color, alpha);
    lemma_single_seed_suffix(cells, sx, sy, w, k, 0);
}

} // verus!
