//! The monochrome framebuffer: a dense, bounded pixel grid together with the
//! scale factor and scroll offsets the extended opcodes maintain. Reads and
//! writes outside the grid are silently ignored, which is what the sprite
//! drawing opcode relies on.

use vstd::prelude::*;

verus! {

/// The abstract value of a [`Screen`]: the pixel grid in row-major order and
/// the scale and scroll state.
#[verifier::ext_equal]
pub struct ScreenView {
    /// Row-major pixels; `true` is lit.
    pub grid: Seq<bool>,
    /// Width of the grid in physical pixels.
    pub width: nat,
    /// Height of the grid in physical pixels.
    pub height: nat,
    /// Drawing scale: at scale 2 one logical pixel covers a 2 by 2 block.
    pub scale: nat,
    /// Vertical scroll offset.
    pub scroll_down: nat,
    /// Horizontal scroll offset.
    pub scroll_side: nat,
}

/// Whether `(x, y)` lies on the grid.
pub open spec fn sv_in_bounds(s: ScreenView, x: int, y: int) -> bool {
    0 <= x < s.width && 0 <= y < s.height
}

/// The physical pixel at `(x, y)`; out-of-range reads are unlit.
pub open spec fn sv_get(s: ScreenView, x: int, y: int) -> bool {
    sv_in_bounds(s, x, y) && s.grid[y * s.width + x]
}

/// Writing `v` to the physical pixel `(x, y)`: the grid after the write, and
/// whether anything changed. Out-of-range writes and writes of the value
/// already present change nothing.
pub open spec fn sv_set(s: ScreenView, x: int, y: int, v: bool) -> (ScreenView, bool) {
    if sv_in_bounds(s, x, y) && s.grid[y * s.width + x] != v {
        (ScreenView { grid: s.grid.update(y * s.width + x, v), ..s }, true)
    } else {
        (s, false)
    }
}

/// The logical pixel `(x, y)` under the current scale: at scale 2 it is the
/// top-left corner of its 2 by 2 block.
pub open spec fn sv_get_scaled(s: ScreenView, x: int, y: int) -> bool {
    sv_get(s, x * s.scale, y * s.scale)
}

/// The lit pixels among the first `n` grid cells, as `(x, y)` pairs in
/// row-major order.
pub open spec fn sv_lit_upto(s: ScreenView, n: nat) -> Seq<(usize, usize)>
    decreases n,
{
    if n == 0 || s.width == 0 {
        Seq::empty()
    } else {
        let i = (n - 1) as nat;
        let rest = sv_lit_upto(s, i);
        if s.grid[i as int] {
            rest.push((((i as int) % (s.width as int)) as usize, ((i as int) / (s.width as int)) as usize))
        } else {
            rest
        }
    }
}

/// All lit pixels of the grid as `(x, y)` pairs in row-major order.
pub open spec fn sv_lit_pixels(s: ScreenView) -> Seq<(usize, usize)> {
    sv_lit_upto(s, s.grid.len())
}

/// The screen with every pixel unlit; scale and scroll state kept.
pub open spec fn sv_cleared(s: ScreenView) -> ScreenView {
    ScreenView { grid: Seq::new(s.grid.len(), |i: int| false), ..s }
}

/// Lights the listed physical pixels in order.
pub open spec fn sv_apply_lit(s: ScreenView, ps: Seq<(usize, usize)>) -> ScreenView
    decreases ps.len(),
{
    if ps.len() == 0 {
        s
    } else {
        let p = ps.last();
        sv_set(sv_apply_lit(s, ps.drop_last()), p.0 as int, p.1 as int, true).0
    }
}

/// Every listed lit pixel lies on the grid, and there are no more entries
/// than cells scanned.
pub proof fn lemma_lit_pixels_in_bounds(s: ScreenView, n: nat)
    requires
        s.grid.len() == s.width * s.height,
        n <= s.grid.len(),
    ensures
        sv_lit_upto(s, n).len() <= n,
        forall|i: int| 0 <= i < sv_lit_upto(s, n).len() ==> (#[trigger] sv_lit_upto(s, n)[i]).0
            < s.width && sv_lit_upto(s, n)[i].1 < s.height,
    decreases n,
{
    if n > 0 && s.width > 0 {
        lemma_lit_pixels_in_bounds(s, (n - 1) as nat);
        let i = (n - 1) as int;
        vstd::arithmetic::div_mod::lemma_mod_bound(i, s.width as int);
        assert(i / (s.width as int) < s.height) by (nonlinear_arith)
            requires
                0 <= i < s.width * s.height,
                s.width > 0,
        ;
    }
}

/// Relighting the pixels listed by [`sv_lit_upto`] onto a cleared screen
/// restores exactly the scanned prefix of the grid.
pub proof fn lemma_relight(s: ScreenView, n: nat)
    requires
        s.grid.len() == s.width * s.height,
        s.width <= 256,
        s.height <= 256,
        n <= s.grid.len(),
    ensures
        sv_apply_lit(sv_cleared(s), sv_lit_upto(s, n)) == (ScreenView {
            grid: Seq::new(s.grid.len(), |i: int| i < n && s.grid[i]),
            ..s
        }),
    decreases n,
{
    if n == 0 || s.width == 0 {
        assert(sv_apply_lit(sv_cleared(s), sv_lit_upto(s, n)).grid =~= Seq::new(
            s.grid.len(),
            |i: int| i < n && s.grid[i],
        ));
        assert(sv_apply_lit(sv_cleared(s), sv_lit_upto(s, n)) =~= (ScreenView {
            grid: Seq::new(s.grid.len(), |i: int| i < n && s.grid[i]),
            ..s
        }));
    } else {
        broadcast use vstd::seq_lib::group_seq_properties;

        lemma_relight(s, (n - 1) as nat);
        let i = (n - 1) as int;
        let w = s.width as int;
        let prev = sv_apply_lit(sv_cleared(s), sv_lit_upto(s, (n - 1) as nat));
        let goal = ScreenView { grid: Seq::new(s.grid.len(), |j: int| j < n && s.grid[j]), ..s };
        if s.grid[i] {
            let x = i % w;
            let y = i / w;
            vstd::arithmetic::div_mod::lemma_fundamental_div_mod(i, w);
            vstd::arithmetic::div_mod::lemma_mod_bound(i, w);
            assert(y < s.height) by (nonlinear_arith)
                requires
                    0 <= i < s.width * s.height,
                    s.width > 0,
                    y == i / (s.width as int),
            ;
            let p = ((x as usize), (y as usize));
            assert(sv_lit_upto(s, n) == sv_lit_upto(s, (n - 1) as nat).push(p));
            let tail = sv_lit_upto(s, n).drop_last();
            assert(tail =~= sv_lit_upto(s, (n - 1) as nat));
            assert(sv_apply_lit(sv_cleared(s), tail) == prev);
            assert(sv_lit_upto(s, n).last() == p);
            assert(0 <= x < 256 && 0 <= y < 256);
            assert(p.0 as int == x);
            assert(p.1 as int == y);
            assert(sv_apply_lit(sv_cleared(s), sv_lit_upto(s, n)) == sv_set(
                sv_apply_lit(sv_cleared(s), tail),
                p.0 as int,
                p.1 as int,
                true,
            ).0);
            assert(sv_apply_lit(sv_cleared(s), sv_lit_upto(s, n)) == sv_set(
                prev,
                x,
                y,
                true,
            ).0);
            assert(y * w + x == i);
            assert(sv_set(prev, x, y, true).0.grid =~= goal.grid);
            assert(sv_apply_lit(sv_cleared(s), sv_lit_upto(s, n)) =~= goal);
        } else {
            assert(sv_lit_upto(s, n) == sv_lit_upto(s, (n - 1) as nat));
            assert(prev.grid =~= goal.grid);
            assert(prev =~= goal);
        }
    }
}

/// The monochrome pixel grid with scale and scroll state. The grid is at
/// most 256 pixels wide and high, so every coordinate fits in one byte of a
/// snapshot.
pub struct Screen {
    pix: Vec<bool>,
    width: usize,
    height: usize,
    scale: usize,
    scroll_down: usize,
    scroll_side: usize,
}

impl View for Screen {
    type V = ScreenView;

    closed spec fn view(&self) -> ScreenView {
        ScreenView {
            grid: self.pix@,
            width: self.width as nat,
            height: self.height as nat,
            scale: self.scale as nat,
            scroll_down: self.scroll_down as nat,
            scroll_side: self.scroll_side as nat,
        }
    }
}

impl Screen {
    /// Dimensions fit a snapshot byte, the scale is a small nonzero factor,
    /// the scroll offsets fit a byte, and the grid holds exactly one cell per
    /// coordinate.
    #[verifier::type_invariant]
    pub open spec fn inv(self) -> bool {
        &&& self@.width <= 256
        &&& self@.height <= 256
        &&& 1 <= self@.scale <= 255
        &&& self@.scroll_down <= 255
        &&& self@.scroll_side <= 255
        &&& self@.grid.len() == self@.width * self@.height
    }

    /// A blank screen of the given dimensions at scale 2 with no scroll.
    pub fn new(width: usize, height: usize) -> (r: Self)
        requires
            width <= 256,
            height <= 256,
        ensures
            r@.width == width,
            r@.height == height,
            r@.scale == 2,
            r@.scroll_down == 0,
            r@.scroll_side == 0,
            r@.grid == Seq::new((width * height) as nat, |i: int| false),
    {
        proof {
            assert(width * height <= 256 * 256) by (nonlinear_arith)
                requires
                    width <= 256,
                    height <= 256,
            ;
        }
        let total = width * height;
        let mut pix: Vec<bool> = Vec::new();
        let mut n: usize = 0;
        while n < total
            invariant
                n <= total,
                pix@.len() == n,
                forall|i: int| 0 <= i < n ==> pix@[i] == false,
            decreases total - n,
        {
            pix.push(false);
            n = n + 1;
        }
        proof {
            assert(pix@ =~= Seq::new((width * height) as nat, |i: int| false));
        }
        Self { pix, width, height, scale: 2, scroll_down: 0, scroll_side: 0 }
    }

    /// The lit pixels as `(x, y)` pairs in row-major order.
    pub fn get_pixels(&self) -> (r: Vec<(usize, usize)>)
        ensures
            r@ == sv_lit_pixels(self@),
    {
        proof {
            use_type_invariant(self);
            assert(self@.width == 0 ==> self@.width * self@.height == 0) by (nonlinear_arith);
        }
        let mut out: Vec<(usize, usize)> = Vec::new();
        let mut i: usize = 0;
        while i < self.pix.len()
            invariant
                i <= self.pix@.len(),
                self.width >= 1 ==> out@ == sv_lit_upto(self@, i as nat),
                self.width == 0 ==> out@.len() == 0 && self.pix@.len() == 0,
                self@.grid.len() == self@.width * self@.height,
                self@.width <= 256,
            decreases self.pix@.len() - i,
        {
            if self.pix[i] {
                out.push((i % self.width, i / self.width));
            }
            i = i + 1;
        }
        proof {
            if self.width == 0 {
                assert(out@ =~= sv_lit_pixels(self@));
            }
        }
        out
    }

    /// Blanks every pixel; scale and scroll state stay as they are.
    pub fn clear(&mut self)
        ensures
            final(self)@ == (ScreenView {
                grid: Seq::new(old(self)@.grid.len(), |i: int| false),
                ..old(self)@
            }),
    {
        proof {
            use_type_invariant(&*self);
        }
        let total = self.pix.len();
        let mut pix: Vec<bool> = Vec::new();
        let mut n: usize = 0;
        while n < total
            invariant
                n <= total,
                pix@.len() == n,
                forall|i: int| 0 <= i < n ==> pix@[i] == false,
            decreases total - n,
        {
            pix.push(false);
            n = n + 1;
        }
        self.pix = pix;
        proof {
            assert(final(self)@.grid =~= Seq::new(old(self)@.grid.len(), |i: int| false));
        }
    }

    /// Whether `(x, y)` is a physical pixel of the grid.
    pub fn in_bounds(&self, x: usize, y: usize) -> (r: bool)
        ensures
            r == sv_in_bounds(self@, x as int, y as int),
    {
        y < self.height && x < self.width
    }

    /// The logical pixel at `(x, y)` under the current scale; out-of-range
    /// reads are unlit.
    pub fn get(&self, x: usize, y: usize) -> (r: bool)
        ensures
            r == sv_get_scaled(self@, x as int, y as int),
    {
        proof {
            use_type_invariant(self);
        }
        if x > 0xFFFF || y > 0xFFFF {
            proof {
                assert(x * self@.scale >= x * 1 && y * self@.scale >= y * 1) by (nonlinear_arith)
                    requires
                        self@.scale >= 1,
                ;
            }
            false
        } else {
            proof {
                assert(x * self@.scale <= 0xFFFF * 255 && y * self@.scale <= 0xFFFF * 255)
                    by (nonlinear_arith)
                    requires
                        x <= 0xFFFF,
                        y <= 0xFFFF,
                        self@.scale <= 255,
                ;
            }
            let px = x * self.scale;
            let py = y * self.scale;
            if px < self.width && py < self.height {
                proof {
                    assert(py * self@.width + px < self@.width * self@.height <= 256 * 256)
                        by (nonlinear_arith)
                        requires
                            0 <= px < self@.width,
                            0 <= py < self@.height,
                            self@.width <= 256,
                            self@.height <= 256,
                    ;
                }
                self.pix[py * self.width + px]
            } else {
                false
            }
        }
    }

    /// Writes `v` to the physical pixel `(x, y)`; reports whether the pixel
    /// changed. Out-of-range writes are silently ignored.
    pub fn set(&mut self, x: usize, y: usize, v: bool) -> (r: bool)
        ensures
            (final(self)@, r) == sv_set(old(self)@, x as int, y as int, v),
    {
        proof {
            use_type_invariant(&*self);
        }
        if x < self.width && y < self.height {
            proof {
                assert(y * self@.width + x < self@.width * self@.height <= 256 * 256)
                    by (nonlinear_arith)
                    requires
                        0 <= x < self@.width,
                        0 <= y < self@.height,
                        self@.width <= 256,
                        self@.height <= 256,
                ;
            }
            let i = y * self.width + x;
            if self.pix[i] != v {
                self.pix[i] = v;
                true
            } else {
                false
            }
        } else {
            false
        }
    }

    /// Sets the horizontal scroll offset.
    pub fn set_scroll_side(&mut self, s: usize)
        requires
            s <= 255,
        ensures
            final(self)@ == (ScreenView { scroll_side: s as nat, ..old(self)@ }),
    {
        proof {
            use_type_invariant(&*self);
        }
        self.scroll_side = s;
    }

    /// The horizontal scroll offset.
    pub fn get_scroll_side(&self) -> (r: usize)
        ensures
            r == self@.scroll_side,
    {
        self.scroll_side
    }

    /// Sets the vertical scroll offset.
    pub fn set_scroll_down(&mut self, s: usize)
        requires
            s <= 255,
        ensures
            final(self)@ == (ScreenView { scroll_down: s as nat, ..old(self)@ }),
    {
        proof {
            use_type_invariant(&*self);
        }
        self.scroll_down = s;
    }

    /// The vertical scroll offset.
    pub fn get_scroll_down(&self) -> (r: usize)
        ensures
            r == self@.scroll_down,
    {
        self.scroll_down
    }

    /// The drawing scale.
    pub fn get_scale(&self) -> (r: usize)
        ensures
            r == self@.scale,
    {
        self.scale
    }

    /// Sets the drawing scale.
    pub fn set_scale(&mut self, s: usize)
        requires
            1 <= s <= 255,
        ensures
            final(self)@ == (ScreenView { scale: s as nat, ..old(self)@ }),
    {
        proof {
            use_type_invariant(&*self);
        }
        self.scale = s;
    }

    /// The physical pixels a logical pixel covers: its 2 by 2 block at scale
    /// 2, itself otherwise.
    pub fn get_pix(&self, x: usize, y: usize) -> (r: Vec<(usize, usize)>)
        ensures
            r@ == spec_get_pix(self@, x as int, y as int),
    {
        proof {
            use_type_invariant(self);
        }
        if self.scale == 2 && x <= 0xFFFF && y <= 0xFFFF {
            let mut r: Vec<(usize, usize)> = Vec::new();
            r.push((2 * x, 2 * y));
            r.push((2 * x + 1, 2 * y));
            r.push((2 * x, 2 * y + 1));
            r.push((2 * x + 1, 2 * y + 1));
            proof {
                assert(r@ =~= spec_get_pix(self@, x as int, y as int));
            }
            r
        } else {
            let mut r: Vec<(usize, usize)> = Vec::new();
            r.push((x, y));
            proof {
                assert(r@ =~= spec_get_pix(self@, x as int, y as int));
            }
            r
        }
    }
}

/// The physical targets of a write to the logical pixel `(x, y)`.
pub open spec fn spec_get_pix(s: ScreenView, x: int, y: int) -> Seq<(usize, usize)> {
    if s.scale == 2 && x <= 0xFFFF && y <= 0xFFFF {
        seq![
            ((2 * x) as usize, (2 * y) as usize),
            ((2 * x + 1) as usize, (2 * y) as usize),
            ((2 * x) as usize, (2 * y + 1) as usize),
            ((2 * x + 1) as usize, (2 * y + 1) as usize),
        ]
    } else {
        seq![(x as usize, y as usize)]
    }
}

} // verus!
