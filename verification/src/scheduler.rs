//! The scanline scheduler: dynamic dispatch of image rows to a fixed worker
//! pool, out-of-order collection, and in-order assembly of the final buffer.
//!
//! The scheduler is a state machine over plain values.  The shell around the
//! library owns the workers and the channels; it forwards every decision to
//! this module: which scanline each worker starts on, what to reply when a
//! worker hands back a finished row (the next unassigned scanline, or the
//! stop sentinel — a value equal to the image height — once none remain),
//! and when the render is complete.  The contracts pin down the protocol's
//! safety: a scanline index below the height is handed out at most once, a
//! finished row is stored exactly at its reported index, and the assembled
//! buffer lists the stored rows in scanline order, whatever order they were
//! finished in and however many workers took part.

use vstd::arithmetic::div_mod::lemma_fundamental_div_mod;
use vstd::arithmetic::div_mod::lemma_mod_bound;
use vstd::arithmetic::mul::lemma_mul_inequality;
use vstd::prelude::*;

use crate::pixel::Pixel;

verus! {

/// How many scanlines of `rows` have been collected so far.
pub open spec fn stored_count(rows: Seq<Option<Vec<Pixel>>>) -> nat
    decreases rows.len(),
{
    if rows.len() == 0 {
        0
    } else {
        stored_count(rows.drop_last()) + if rows.last() is Some {
            1nat
        } else {
            0nat
        }
    }
}

/// No more scanlines can have been collected than there are slots.
proof fn lemma_stored_count_le(rows: Seq<Option<Vec<Pixel>>>)
    ensures
        stored_count(rows) <= rows.len(),
    decreases rows.len(),
{
    if rows.len() > 0 {
        lemma_stored_count_le(rows.drop_last());
    }
}

/// When every slot counts, every slot is filled.
proof fn lemma_stored_count_full(rows: Seq<Option<Vec<Pixel>>>)
    requires
        stored_count(rows) == rows.len(),
    ensures
        forall|y: int| 0 <= y < rows.len() ==> rows[y] is Some,
    decreases rows.len(),
{
    if rows.len() > 0 {
        lemma_stored_count_le(rows.drop_last());
        assert(rows.last() is Some);
        assert(stored_count(rows.drop_last()) == rows.drop_last().len());
        lemma_stored_count_full(rows.drop_last());
        assert forall|y: int| 0 <= y < rows.len() implies rows[y] is Some by {
            if y < rows.len() - 1 {
                assert(rows[y] == rows.drop_last()[y]);
            }
        }
    }
}

/// Filling an empty slot raises the collected count by exactly one.
proof fn lemma_stored_count_update(rows: Seq<Option<Vec<Pixel>>>, y: int, row: Vec<Pixel>)
    requires
        0 <= y < rows.len(),
        rows[y] is None,
    ensures
        stored_count(rows.update(y, Some(row))) == stored_count(rows) + 1,
    decreases rows.len(),
{
    let updated = rows.update(y, Some(row));
    if y == rows.len() - 1 {
        assert(updated.drop_last() =~= rows.drop_last());
    } else {
        assert(updated.drop_last() =~= rows.drop_last().update(y, Some(row)));
        lemma_stored_count_update(rows.drop_last(), y, row);
    }
}

/// Driver state for one render: how far assignment and collection have got,
/// and the rows collected so far, indexed by scanline.
pub struct Scheduler {
    /// Image width: the length of every finished row.
    pub width: usize,
    /// Image height: the number of scanlines, and the stop sentinel value.
    pub height: usize,
    /// The next scanline index nobody has been assigned yet; `height` or
    /// above once every scanline has been handed out.
    pub next_row: usize,
    /// How many scanlines have been collected.
    pub completed: usize,
    /// The collected rows, slot `y` holding scanline `y` once it arrives.
    pub rows: Vec<Option<Vec<Pixel>>>,
}

impl Scheduler {
    /// The scheduler's invariant: one slot per scanline, the completion
    /// counter agrees with the slots, and every collected row has the
    /// image's width.
    pub open spec fn wf(&self) -> bool {
        &&& self.rows@.len() == self.height
        &&& self.completed == stored_count(self.rows@)
        &&& forall|y: int|
            0 <= y < self.height && self.rows@[y] is Some ==> (#[trigger] self.rows@[y])->Some_0@.len()
                == self.width
    }

    /// A fresh scheduler: nothing assigned, nothing collected.
    pub fn new(width: usize, height: usize) -> (s: Scheduler)
        ensures
            s.wf(),
            s.width == width,
            s.height == height,
            s.next_row == 0,
            s.completed == 0,
            forall|y: int| 0 <= y < height ==> s.rows@[y] is None,
    {
        let mut rows: Vec<Option<Vec<Pixel>>> = Vec::new();
        let mut y: usize = 0;
        while y < height
            invariant
                y <= height,
                rows@.len() == y,
                stored_count(rows@) == 0,
                forall|j: int| 0 <= j < y ==> rows@[j] is None,
            decreases height - y,
        {
            let ghost prev = rows@;
            rows.push(None);
            proof {
                assert(rows@.drop_last() =~= prev);
            }
            y = y + 1;
        }
        Scheduler { width, height, next_row: 0, completed: 0, rows }
    }

    /// The initial round of assignments: worker `i` of the pool starts on
    /// scanline `i`.  An assignment at or above the height is the stop
    /// sentinel, so a pool larger than the image stops its excess workers
    /// at once.
    pub fn start(&mut self, num_workers: usize) -> (initial: Vec<usize>)
        requires
            old(self).wf(),
            old(self).next_row == 0,
            old(self).completed == 0,
        ensures
            final(self).wf(),
            final(self).width == old(self).width,
            final(self).height == old(self).height,
            final(self).completed == 0,
            final(self).rows@ == old(self).rows@,
            final(self).next_row == num_workers,
            initial@.len() == num_workers,
            forall|i: int| 0 <= i < num_workers ==> initial@[i] == i,
    {
        let mut initial: Vec<usize> = Vec::new();
        let mut i: usize = 0;
        while i < num_workers
            invariant
                i <= num_workers,
                initial@.len() == i,
                forall|j: int| 0 <= j < i ==> initial@[j] == j,
            decreases num_workers - i,
        {
            initial.push(i);
            i = i + 1;
        }
        self.next_row = num_workers;
        initial
    }

    /// Whether scanline `line` is still awaited.
    pub fn row_pending(&self, line: usize) -> (pending: bool)
        requires
            self.wf(),
            line < self.height,
        ensures
            pending <==> self.rows@[line as int] is None,
    {
        self.rows[line].is_none()
    }

    /// Accepts a finished row for scanline `line` and decides the reply to
    /// the worker that rendered it: the next unassigned scanline while one
    /// remains, otherwise the stop sentinel (the image height).  A reply
    /// below the height is always the scanline nobody has been assigned
    /// before, so no scanline is ever handed out twice.
    pub fn on_response(&mut self, line: usize, row: Vec<Pixel>) -> (reply: usize)
        requires
            old(self).wf(),
            line < old(self).height,
            old(self).rows@[line as int] is None,
            row@.len() == old(self).width,
        ensures
            final(self).wf(),
            final(self).width == old(self).width,
            final(self).height == old(self).height,
            final(self).completed == old(self).completed + 1,
            final(self).rows@ == old(self).rows@.update(line as int, Some(row)),
            old(self).next_row < old(self).height ==> reply == old(self).next_row
                && final(self).next_row == old(self).next_row + 1,
            old(self).next_row >= old(self).height ==> reply == old(self).height
                && final(self).next_row == old(self).next_row,
            reply < final(self).height <==> old(self).next_row < old(self).height,
    {
        proof {
            lemma_stored_count_le(self.rows@);
            if self.completed == self.rows@.len() {
                lemma_stored_count_full(self.rows@);
            }
            lemma_stored_count_update(self.rows@, line as int, row);
        }
        self.rows.set(line, Some(row));
        self.completed = self.completed + 1;
        if self.next_row < self.height {
            let reply = self.next_row;
            self.next_row = self.next_row + 1;
            reply
        } else {
            self.height
        }
    }

    /// Whether every scanline has been collected.
    pub fn is_done(&self) -> (done: bool)
        ensures
            done <==> self.completed == self.height,
    {
        self.completed == self.height
    }

    /// Assembles the final pixel buffer once every scanline has been
    /// collected: the stored rows concatenated in scanline order, whatever
    /// order they were finished in.
    pub fn assemble(self) -> (buf: Vec<Pixel>)
        requires
            self.wf(),
            self.completed == self.height,
        ensures
            row_major(buf@, self.rows@.map_values(|r: Option<Vec<Pixel>>| r->Some_0@), self.width as nat),
            buf@.len() == self.height * self.width,
    {
        proof {
            lemma_stored_count_full(self.rows@);
        }
        let width = self.width;
        let h = self.height;
        let ghost all = self.rows@;
        let mut rows = self.rows;
        let mut buf: Vec<Pixel> = Vec::new();
        let mut y: usize = 0;
        let ghost height = self.height as int;
        while y < h
            invariant
                y <= height,
                h == height,
                height == all.len(),
                rows@ =~= all.skip(y as int),
                buf@.len() == y * width,
                forall|j: int| 0 <= j < all.len() ==> all[j] is Some,
                forall|j: int|
                    0 <= j < all.len() ==> (#[trigger] all[j])->Some_0@.len() == width,
                forall|j: int|
                    0 <= j < y ==> buf@.subrange(j * width, (j + 1) * width) == (
                    #[trigger] all[j])->Some_0@,
            decreases height - y,
        {
            let slot = rows.remove(0);
            let ghost prev = buf@;
            match slot {
                Some(mut row) => {
                    buf.append(&mut row);
                }
                None => {
                    proof {
                        assert(all[y as int] is Some);
                    }
                }
            }
            proof {
                assert((y + 1) * width == y * width + width) by (nonlinear_arith);
                assert(rows@ =~= all.skip(y + 1));
                assert(buf@.subrange(0, prev.len() as int) =~= prev);
                assert(buf@.subrange(y * width, (y + 1) * width) =~= all[y as int]->Some_0@);
                assert forall|j: int|
                    0 <= j < y + 1 implies buf@.subrange(j * width, (j + 1) * width) == (
                    #[trigger] all[j])->Some_0@ by {
                    if j < y {
                        assert(0 <= j * width && (j + 1) * width == j * width + width)
                            by (nonlinear_arith)
                            requires 0 <= j, 0 <= width,
                        ;
                        lemma_mul_inequality(j + 1, y as int, width as int);
                        assert(buf@.subrange(j * width, (j + 1) * width) =~= prev.subrange(
                            j * width,
                            (j + 1) * width,
                        ));
                    }
                }
            }
            y = y + 1;
        }
        buf
    }
}

/// A completed render holds every scanline, each exactly once at its own
/// index and at the image's width — whatever worker count drove the pool
/// and in whatever order the rows were finished.  With `assemble`'s
/// contract, the buffer of a completed render therefore always measures
/// `height * width` pixels, scanline `y` standing at row `y`.
pub proof fn lemma_completed_render_is_full(s: Scheduler)
    requires
        s.wf(),
        s.completed == s.height,
    ensures
        s.rows@.len() == s.height,
        forall|y: int|
            0 <= y < s.height ==> (#[trigger] s.rows@[y]) is Some && s.rows@[y]->Some_0@.len()
                == s.width,
{
    lemma_stored_count_full(s.rows@);
}

/// The worker side of the protocol's one decision: an assignment at or
/// above the image height is the stop sentinel, any other value is a
/// scanline to render.
pub fn is_stop_sentinel(line: usize, height: usize) -> (stop: bool)
    ensures
        stop <==> line >= height,
{
    line >= height
}

/// `buf` lists the `width`-pixel rows of `rows` in row order: row `y`
/// occupies positions `y * width ..= (y + 1) * width - 1`, rows
/// top-to-bottom.
pub open spec fn row_major(buf: Seq<Pixel>, rows: Seq<Seq<Pixel>>, width: nat) -> bool {
    &&& buf.len() == rows.len() * width
    &&& forall|y: int|
        0 <= y < rows.len() ==> buf.subrange(y * width, (y + 1) * width) == #[trigger] rows[y]
}

/// Concatenates finished rows that already stand in scanline order into the
/// final pixel buffer: the sequential render mode's assembly step.
pub fn concat_rows(rows: Vec<Vec<Pixel>>, width: usize) -> (buf: Vec<Pixel>)
    requires
        forall|y: int| 0 <= y < rows@.len() ==> (#[trigger] rows@[y])@.len() == width,
    ensures
        row_major(buf@, rows@.map_values(|r: Vec<Pixel>| r@), width as nat),
        buf@.len() == rows@.len() * width,
{
    let ghost all = rows@;
    let mut rows = rows;
    let n = rows.len();
    let mut buf: Vec<Pixel> = Vec::new();
    let mut y: usize = 0;
    let ghost height = all.len() as int;
    proof {
        assert(n == height);
    }
    while rows.len() > 0
        invariant
            0 <= y <= height,
            height <= usize::MAX,
            height == all.len(),
            rows@ =~= all.skip(y as int),
            buf@.len() == y * width,
            forall|j: int| 0 <= j < all.len() ==> (#[trigger] all[j])@.len() == width,
            forall|j: int|
                0 <= j < y ==> buf@.subrange(j * width, (j + 1) * width) == (#[trigger] all[j])@,
        decreases rows@.len(),
    {
        let mut row = rows.remove(0);
        let ghost prev = buf@;
        buf.append(&mut row);
        proof {
            assert((y + 1) * width == y * width + width) by (nonlinear_arith);
            assert(rows@ =~= all.skip(y + 1));
            assert(buf@.subrange(0, prev.len() as int) =~= prev);
            assert(buf@.subrange(y * width, (y + 1) * width) =~= all[y as int]@);
            assert forall|j: int|
                0 <= j < y + 1 implies buf@.subrange(j * width, (j + 1) * width) == (
                #[trigger] all[j])@ by {
                if j < y {
                    assert(0 <= j * width && (j + 1) * width == j * width + width)
                        by (nonlinear_arith)
                        requires 0 <= j, 0 <= width,
                    ;
                    lemma_mul_inequality(j + 1, y as int, width as int);
                    assert(buf@.subrange(j * width, (j + 1) * width) =~= prev.subrange(
                        j * width,
                        (j + 1) * width,
                    ));
                }
            }
        }
        y = y + 1;
    }
    buf
}

/// There is exactly one row-major buffer for a given sequence of rows: two
/// renders that shade every scanline to the same row — the sequential mode
/// and the pooled mode with any worker count, say — produce pixel buffers of
/// identical dimensions and identical contents, row `y` of each being
/// scanline `y`.
pub proof fn lemma_row_major_unique(
    buf1: Seq<Pixel>,
    buf2: Seq<Pixel>,
    rows: Seq<Seq<Pixel>>,
    width: nat,
)
    requires
        row_major(buf1, rows, width),
        row_major(buf2, rows, width),
    ensures
        buf1 == buf2,
{
    if width == 0 {
        assert(buf1.len() == 0);
        assert(buf1 =~= buf2);
    } else {
        assert forall|i: int| 0 <= i < buf1.len() implies buf1[i] == buf2[i] by {
            let w = width as int;
            let y = i / w;
            let x = i % w;
            lemma_fundamental_div_mod(i, w);
            lemma_mod_bound(i, w);
            assert(w * y == y * w) by (nonlinear_arith);
            assert((y + 1) * w == y * w + w) by (nonlinear_arith);
            if y >= rows.len() {
                lemma_mul_inequality(rows.len() as int, y, w);
                assert(false);
            }
            assert(0 <= y < rows.len());
            lemma_mul_inequality(y + 1, rows.len() as int, w);
            assert(y * w <= i < (y + 1) * w);
            assert(buf1.subrange(y * w, (y + 1) * w) == rows[y]);
            assert(buf2.subrange(y * w, (y + 1) * w) == rows[y]);
            assert(buf1[i] == buf1.subrange(y * w, (y + 1) * w)[x]);
            assert(buf2[i] == buf2.subrange(y * w, (y + 1) * w)[x]);
        }
        assert(buf1 =~= buf2);
    }
}

} // verus!
