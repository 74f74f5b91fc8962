//! Drawing a sprite: the pixels that the sprite's set bits cover are
//! inverted on every active plane, and a collision is reported when one of
//! them was lit.
//!
//! A sprite of height `n` between 1 and 15 is 8 pixels wide and `n` rows
//! high, one byte per row; height 0 selects a 16x16 sprite of two bytes per
//! row. Each active plane reads its own sprite: the second active plane
//! takes the bytes that follow the first one's. The sprite starts at the
//! given position taken modulo the screen size; pixels past an edge wrap
//! around to the other side, or are dropped when sprites are clipped.

use vstd::prelude::*;
use crate::display::{Display, DisplayState, PLANE_COUNT, plane_active};
use crate::memory::{Memory, MAX_MEMORY};

verus! {

/// Columns of a sprite of the given height.
pub open spec fn sprite_width(height: nat) -> nat {
    if height == 0 { 16 } else { 8 }
}

/// Rows of a sprite of the given height.
pub open spec fn sprite_height(height: nat) -> nat {
    if height == 0 { 16 } else { height }
}

/// Bytes of sprite data that each active plane reads.
pub open spec fn sprite_bytes(height: nat) -> nat {
    if height == 0 { 32 } else { height }
}

/// Bytes of sprite data that a draw reads: those of each active plane.
pub open spec fn sprite_read_len(mask: usize, height: nat) -> nat {
    (if plane_active(mask, 0) { sprite_bytes(height) } else { 0 }) + (if plane_active(mask, 1) {
        sprite_bytes(height)
    } else {
        0
    })
}

/// The sprite data of every active plane lies inside memory.
pub open spec fn sprite_fits(index: int, mask: usize, height: nat) -> bool {
    index + sprite_read_len(mask, height) <= MAX_MEMORY
}

/// The 16-bit value of two bytes, the first one high.
pub open spec fn join_bytes(hi: u8, lo: u8) -> u16 {
    ((hi as int) * 256 + (lo as int)) as u16
}

/// Whether bit `bit` of `line` is set.
pub open spec fn bit_set(line: u16, bit: u16) -> bool {
    (line >> bit) & 1u16 == 1u16
}

/// A sprite draw: the memory it reads and its parameters.
pub struct SpriteDraw {
    pub memory: Seq<u8>,
    /// Address of the sprite data.
    pub index: int,
    /// Column and row given for the top left corner.
    pub x: nat,
    pub y: nat,
    /// The height nibble of the instruction.
    pub height: nat,
    /// Whether pixels past the edges are dropped rather than wrapped.
    pub clip: bool,
}

impl SpriteDraw {
    /// Address of the sprite that plane `layer` reads.
    pub open spec fn base(self, mask: usize, layer: int) -> int {
        if layer == 1 && plane_active(mask, 0) { self.index + sprite_bytes(self.height) } else { self.index }
    }

    /// Row `a` of the sprite that plane `layer` reads.
    pub open spec fn line(self, mask: usize, layer: int, a: int) -> u16 {
        let base = self.base(mask, layer);
        if self.height == 0 {
            join_bytes(self.memory[base + 2 * a], self.memory[base + 2 * a + 1])
        } else {
            self.memory[base + a] as u16
        }
    }

    /// Whether the sprite of plane `layer` sets the pixel at its row `a` and
    /// column `b` (the leftmost column is the highest bit), and that pixel is
    /// not clipped away.
    pub open spec fn drawn(self, d: DisplayState, layer: int, a: int, b: int) -> bool {
        let x0 = self.x % d.width();
        let y0 = self.y % d.height();
        &&& 0 <= a < sprite_height(self.height)
        &&& 0 <= b < sprite_width(self.height)
        &&& bit_set(self.line(d.active_plane, layer, a), (sprite_width(self.height) - 1 - b) as u16)
        &&& !(self.clip && (x0 + b >= d.width() || y0 + a >= d.height()))
    }

    /// The sprite row that lands on screen row `py`.
    pub open spec fn row_at(self, d: DisplayState, py: int) -> int {
        (py + d.height() - self.y % d.height()) % (d.height() as int)
    }

    /// The sprite column that lands on screen column `px`.
    pub open spec fn col_at(self, d: DisplayState, px: int) -> int {
        (px + d.width() - self.x % d.width()) % (d.width() as int)
    }

    /// Whether pixel `p` of plane `layer` is inverted by the draw.
    pub open spec fn covers(self, d: DisplayState, layer: int, p: int) -> bool {
        &&& plane_active(d.active_plane, layer)
        &&& self.drawn(d, layer, self.row_at(d, p / (d.width() as int)), self.col_at(d, p % (d.width() as int)))
    }

    /// The display after the draw.
    pub open spec fn result(self, d: DisplayState) -> DisplayState {
        DisplayState {
            planes: Seq::new(
                d.planes.len(),
                |l: int|
                    Seq::new(
                        d.planes[l].len(),
                        |p: int|
                            if self.covers(d, l, p) {
                                if d.planes[l][p] == 0 { 1u8 } else { 0u8 }
                            } else {
                                d.planes[l][p]
                            },
                    ),
            ),
            ..d
        }
    }

    /// Whether the draw inverts pixel `p` of plane `layer` and that pixel was lit.
    pub open spec fn hits(self, d: DisplayState, layer: int, p: int) -> bool {
        self.covers(d, layer, p) && d.planes[layer][p] != 0
    }

    /// Whether pixel `p` is where sprite row `a`, column `b` lands.
    pub open spec fn at_cell(self, d: DisplayState, p: int, a: int, b: int) -> bool {
        self.row_at(d, p / (d.width() as int)) == a && self.col_at(d, p % (d.width() as int)) == b
    }

    /// Whether pixel `p` comes before sprite row `a`, column `b` in drawing order.
    pub open spec fn before(self, d: DisplayState, p: int, a: int, b: int) -> bool {
        let r = self.row_at(d, p / (d.width() as int));
        let c = self.col_at(d, p % (d.width() as int));
        r < a || (r == a && c < b)
    }

    /// Whether the draw darkens a lit pixel.
    pub open spec fn collides(self, d: DisplayState) -> bool {
        exists|l: int, p: int|
            0 <= l < PLANE_COUNT && 0 <= p < d.planes[l].len() && #[trigger] self.covers(d, l, p)
                && d.planes[l][p] != 0
    }
}

/// Two bytes joined high then low.
pub proof fn lemma_join(hi: u8, lo: u8)
    ensures
        ((hi as u16) << 8u16) | (lo as u16) == join_bytes(hi, lo),
{
    assert(((hi as u16) << 8u16) | (lo as u16) == (hi as u16) * 256 + (lo as u16)) by (bit_vector);
}

/// The single-bit mask test agrees with `bit_set`.
proof fn lemma_bit(line: u16, bit: u16)
    requires
        bit < 16,
    ensures
        (((line & (1u16 << bit)) >> bit) != 0) == bit_set(line, bit),
{
    assert((((line & (1u16 << bit)) >> bit) != 0) == ((line >> bit) & 1u16 == 1u16)) by (bit_vector)
        requires
            bit < 16,
    ;
}

/// Adding an offset below `w` to a start below `w` and wrapping gives a
/// position from which the offset is recovered, and no other position
/// gives the same offset.
proof fn lemma_wrap(x0: int, b: int, w: int)
    requires
        0 <= x0 < w,
        0 <= b < w,
    ensures
        ({
            let px = if x0 + b >= w { (x0 + b) % w } else { x0 + b };
            &&& 0 <= px < w
            &&& (px + w - x0) % w == b
            &&& forall|q: int| 0 <= q < w && #[trigger] ((q + w - x0) % w) == b ==> q == px
        }),
{
    let px = if x0 + b >= w { (x0 + b) % w } else { x0 + b };
    if x0 + b >= w {
        vstd::arithmetic::div_mod::lemma_mod_sub_multiples_vanish(x0 + b, w);
        vstd::arithmetic::div_mod::lemma_small_mod((x0 + b - w) as nat, w as nat);
        assert(px == x0 + b - w);
        vstd::arithmetic::div_mod::lemma_small_mod(b as nat, w as nat);
    } else {
        vstd::arithmetic::div_mod::lemma_mod_sub_multiples_vanish(b + w, w);
        vstd::arithmetic::div_mod::lemma_small_mod(b as nat, w as nat);
    }
    assert forall|q: int| 0 <= q < w && #[trigger] ((q + w - x0) % w) == b implies q == px by {
        let k = q + w - x0;
        if k >= w {
            vstd::arithmetic::div_mod::lemma_mod_sub_multiples_vanish(k, w);
            vstd::arithmetic::div_mod::lemma_small_mod((k - w) as nat, w as nat);
        } else {
            vstd::arithmetic::div_mod::lemma_small_mod(k as nat, w as nat);
        }
    }
}

/// Row-major index arithmetic on a plane of `w` by `h` pixels.
proof fn lemma_grid(px: int, py: int, w: int, h: int)
    requires
        0 <= px < w,
        0 <= py < h,
    ensures
        0 <= py * w + px < w * h,
        (py * w + px) / w == py,
        (py * w + px) % w == px,
{
    vstd::arithmetic::div_mod::lemma_fundamental_div_mod_converse(py * w + px, w, py, px);
    assert(0 <= py * w + px < w * h) by (nonlinear_arith)
        requires
            0 <= px < w,
            0 <= py < h,
    ;
}

/// Every index of a plane of `w` by `h` pixels is a row and a column.
proof fn lemma_split(p: int, w: int, h: int)
    requires
        0 < w,
        0 <= p < w * h,
    ensures
        0 <= p / w < h,
        0 <= p % w < w,
        p == (p / w) * w + p % w,
{
    vstd::arithmetic::div_mod::lemma_fundamental_div_mod(p, w);
    vstd::arithmetic::div_mod::lemma_mod_pos_bound(p, w);
    vstd::arithmetic::div_mod::lemma_div_pos_is_pos(p, w);
    assert((p / w) * w == w * (p / w)) by (nonlinear_arith);
    assert(p / w < h) by (nonlinear_arith)
        requires
            p == w * (p / w) + p % w,
            0 <= p % w,
            p < w * h,
            0 < w,
    ;
}

impl SpriteDraw {
    /// The planes of `cur` hold the finished draw below plane `lay`, the
    /// draw up to row `a`, column `b` on plane `lay`, and the old pixels above.
    spec fn progress(self, d0: DisplayState, cur: DisplayState, lay: int, a: int, b: int) -> bool {
        &&& cur.planes.len() == PLANE_COUNT
        &&& cur.resolution == d0.resolution
        &&& cur.active_plane == d0.active_plane
        &&& forall|l: int| 0 <= l < PLANE_COUNT ==> #[trigger] cur.planes[l].len() == d0.planes[l].len()
        &&& forall|l: int| 0 <= l < lay ==> #[trigger] cur.planes[l] == self.result(d0).planes[l]
        &&& forall|l: int| lay < l < PLANE_COUNT ==> #[trigger] cur.planes[l] == d0.planes[l]
        &&& lay < PLANE_COUNT ==> forall|p: int| 0 <= p < d0.planes[lay].len() ==> #[trigger] cur.planes[lay][p] == (
            if self.covers(d0, lay, p) && self.before(d0, p, a, b) {
                if d0.planes[lay][p] == 0 { 1u8 } else { 0u8 }
            } else {
                d0.planes[lay][p]
            })
    }

    /// No lit pixel was inverted below plane `lay`, nor on plane `lay`
    /// before row `a`, column `b`.
    spec fn clean(self, d0: DisplayState, lay: int, a: int, b: int) -> bool {
        &&& forall|l: int, p: int| 0 <= l < lay && 0 <= p < d0.planes[l].len() ==> !#[trigger] self.hits(d0, l, p)
        &&& lay < PLANE_COUNT ==> forall|p: int| 0 <= p < d0.planes[lay].len() && self.before(d0, p, a, b) ==> !#[trigger] self.hits(d0, lay, p)
    }
}

/// Drawing cell (`a`, `b`) of plane `lay` advances the progress by one cell.
proof fn lemma_cell(
    s: SpriteDraw,
    d0: DisplayState,
    cur: DisplayState,
    next: DisplayState,
    lay: int,
    a: int,
    b: int,
    drawn: bool,
    p0: int,
)
    requires
        d0.wf(),
        0 <= lay < PLANE_COUNT,
        plane_active(d0.active_plane, lay),
        s.progress(d0, cur, lay, a, b),
        drawn == s.drawn(d0, lay, a, b),
        drawn ==> 0 <= p0 < d0.planes[lay].len() && s.at_cell(d0, p0, a, b) && next == cur.toggled(lay, p0),
        drawn ==> forall|p: int| 0 <= p < d0.planes[lay].len() && p != p0 ==> !#[trigger] s.at_cell(d0, p, a, b),
        !drawn ==> next == cur,
    ensures
        s.progress(d0, next, lay, a, b + 1),
        s.clean(d0, lay, a, b) && (drawn ==> d0.planes[lay][p0] == 0) ==> s.clean(d0, lay, a, b + 1),
        drawn ==> s.covers(d0, lay, p0) && !s.before(d0, p0, a, b),
{
    assert forall|p: int| #![trigger s.before(d0, p, a, b + 1)]
        s.before(d0, p, a, b + 1) == (s.before(d0, p, a, b) || s.at_cell(d0, p, a, b)) by {}
    if drawn {
        assert(cur.planes[lay][p0] == d0.planes[lay][p0]);
        assert forall|l: int| 0 <= l < PLANE_COUNT && l != lay implies #[trigger] next.planes[l] == cur.planes[l] by {}
        assert forall|p: int| 0 <= p < d0.planes[lay].len() implies #[trigger] next.planes[lay][p] == (
            if s.covers(d0, lay, p) && s.before(d0, p, a, b + 1) {
                if d0.planes[lay][p] == 0 { 1u8 } else { 0u8 }
            } else {
                d0.planes[lay][p]
            }) by {
            if p != p0 {
                assert(!s.at_cell(d0, p, a, b));
            }
        }
        assert forall|l: int| 0 <= l < PLANE_COUNT implies #[trigger] next.planes[l].len() == d0.planes[l].len() by {}
    } else {
        assert forall|p: int| 0 <= p < d0.planes[lay].len() && #[trigger] s.at_cell(d0, p, a, b) implies !s.covers(d0, lay, p) by {}
    }
}

/// Finishing plane `lay`: once every covered pixel is drawn, the progress
/// moves to the start of the next plane.
proof fn lemma_layer_done(s: SpriteDraw, d0: DisplayState, cur: DisplayState, lay: int, a: int)
    requires
        d0.wf(),
        0 <= lay < PLANE_COUNT,
        s.progress(d0, cur, lay, a, 0),
        forall|p: int| 0 <= p < d0.planes[lay].len() && #[trigger] s.covers(d0, lay, p) ==> s.before(d0, p, a, 0),
    ensures
        s.progress(d0, cur, lay + 1, 0, 0),
        s.clean(d0, lay, a, 0) ==> s.clean(d0, lay + 1, 0, 0),
{
    assert(cur.planes[lay] =~= s.result(d0).planes[lay]);
    assert forall|l: int| 0 <= l < lay + 1 implies #[trigger] cur.planes[l] == s.result(d0).planes[l] by {
        if l == lay {
            assert(cur.planes[lay] =~= s.result(d0).planes[lay]);
        }
    }
    if lay + 1 < PLANE_COUNT {
        assert forall|p: int| 0 <= p < d0.planes[lay + 1].len() implies !#[trigger] s.before(d0, p, 0, 0) by {
            let w = d0.width() as int;
            let h = d0.height() as int;
            vstd::arithmetic::div_mod::lemma_mod_pos_bound(p / w + h - s.y % (h as nat), h);
            vstd::arithmetic::div_mod::lemma_mod_pos_bound(p % w + w - s.x % (w as nat), w);
        }
        assert(cur.planes[lay + 1] == d0.planes[lay + 1]);
        assert forall|p: int| 0 <= p < d0.planes[lay + 1].len() implies #[trigger] cur.planes[lay + 1][p] == (
            if s.covers(d0, lay + 1, p) && s.before(d0, p, 0, 0) {
                if d0.planes[lay + 1][p] == 0 { 1u8 } else { 0u8 }
            } else {
                d0.planes[lay + 1][p]
            }) by {
            assert(!s.before(d0, p, 0, 0));
        }
    }
    if s.clean(d0, lay, a, 0) {
        assert forall|l: int, p: int| 0 <= l < lay + 1 && 0 <= p < d0.planes[l].len() implies !#[trigger] s.hits(d0, l, p) by {
            if l == lay && s.hits(d0, l, p) {
                assert(s.before(d0, p, a, 0));
            }
        }
        if lay + 1 < PLANE_COUNT {
            assert forall|p: int| 0 <= p < d0.planes[lay + 1].len() && s.before(d0, p, 0, 0) implies !#[trigger] s.hits(d0, lay + 1, p) by {
                let w = d0.width() as int;
                let h = d0.height() as int;
                vstd::arithmetic::div_mod::lemma_mod_pos_bound(p / w + h - s.y % (h as nat), h);
                vstd::arithmetic::div_mod::lemma_mod_pos_bound(p % w + w - s.x % (w as nat), w);
            }
        }
    }
}

/// Draws the sprite at `index` on every active plane, inverting the pixels
/// its set bits cover. Returns 1 when a lit pixel was darkened, else 0.
pub fn draw_sprite_planes(
    display: &mut Display,
    memory: &Memory,
    index: u16,
    x: usize,
    y: usize,
    height: usize,
    clip_sprites: bool,
) -> (collision: u8)
    requires
        old(display)@.wf(),
        memory.wf(),
        height < 16,
        sprite_fits(index as int, old(display)@.active_plane, height as nat),
    ensures
        ({
            let s = SpriteDraw {
                memory: memory.data@,
                index: index as int,
                x: x as nat,
                y: y as nat,
                height: height as nat,
                clip: clip_sprites,
            };
            &&& final(display)@ == s.result(old(display)@)
            &&& collision == (if s.collides(old(display)@) { 1u8 } else { 0u8 })
        }),
{
    let ghost s = SpriteDraw {
        memory: memory.data@,
        index: index as int,
        x: x as nat,
        y: y as nat,
        height: height as nat,
        clip: clip_sprites,
    };
    let ghost d0 = display@;
    let (w, h) = display.screen_size_xy();
    let x0 = x % w;
    let y0 = y % h;
    let mut collision: u8 = 0;
    let mut i: usize = index as usize;
    let sprite_w: usize = if height == 0 { 16 } else { 8 };
    let sprite_h: usize = if height == 0 { 16 } else { height };
    let step: usize = if height == 0 { 32 } else { height };
    let count = display.plane_count();
    let mut layer: usize = 0;
    while layer < count
        invariant
            d0 == old(display)@,
            d0.wf(),
            memory.wf(),
            s.memory == memory.data@,
            s.index == index,
            s.x == x,
            s.y == y,
            s.height == height,
            s.clip == clip_sprites,
            height < 16,
            sprite_fits(index as int, d0.active_plane, height as nat),
            w == d0.width(),
            h == d0.height(),
            x0 == x % w,
            y0 == y % h,
            sprite_w == sprite_width(height as nat),
            sprite_h == sprite_height(height as nat),
            step == sprite_bytes(height as nat),
            count == PLANE_COUNT,
            layer <= count,
            layer < count ==> i == s.base(d0.active_plane, layer as int),
            s.progress(d0, display@, layer as int, 0, 0),
            collision == 0 || collision == 1,
            collision == 0 ==> s.clean(d0, layer as int, 0, 0),
            collision == 1 ==> s.collides(d0),
        decreases count - layer,
    {
        let ghost lay = layer as int;
        if display.active_plane() & (layer + 1) == 0 {
            assert forall|p: int| 0 <= p < d0.planes[lay].len() implies !#[trigger] s.covers(d0, lay, p) by {}
            proof {
                lemma_layer_done(s, d0, display@, lay, 0);
                if layer == 0 {
                    assert(!plane_active(d0.active_plane, 0));
                }
            }
            layer += 1;
            continue;
        }
        assert(i + step <= MAX_MEMORY);
        let mut a: usize = 0;
        while a < sprite_h
            invariant
                d0 == old(display)@,
                d0.wf(),
                memory.wf(),
                s.memory == memory.data@,
                s.index == index,
                s.x == x,
                s.y == y,
                s.height == height,
                s.clip == clip_sprites,
                height < 16,
                w == d0.width(),
                h == d0.height(),
                x0 == x % w,
                y0 == y % h,
                sprite_w == sprite_width(height as nat),
                sprite_h == sprite_height(height as nat),
                step == sprite_bytes(height as nat),
                lay == layer,
                0 <= lay < PLANE_COUNT,
                plane_active(d0.active_plane, lay),
                i == s.base(d0.active_plane, lay),
                i + step <= MAX_MEMORY,
                a <= sprite_h,
                s.progress(d0, display@, lay, a as int, 0),
                collision == 0 || collision == 1,
                collision == 0 ==> s.clean(d0, lay, a as int, 0),
                collision == 1 ==> s.collides(d0),
            decreases sprite_h - a,
        {
            let line: u16 = if height == 0 {
                let hi = memory.data[2 * a + i];
                let lo = memory.data[2 * a + i + 1];
                proof { lemma_join(hi, lo); }
                ((hi as u16) << 8) | (lo as u16)
            } else {
                memory.data[i + a] as u16
            };
            assert(line == s.line(d0.active_plane, lay, a as int));
            let mut b: usize = 0;
            while b < sprite_w
                invariant
                    d0 == old(display)@,
                    d0.wf(),
                    s.memory == memory.data@,
                    s.x == x,
                    s.y == y,
                    s.height == height,
                    s.clip == clip_sprites,
                    height < 16,
                    w == d0.width(),
                    h == d0.height(),
                    x0 == x % w,
                    y0 == y % h,
                    sprite_w == sprite_width(height as nat),
                    sprite_h == sprite_height(height as nat),
                    lay == layer,
                    0 <= lay < PLANE_COUNT,
                    plane_active(d0.active_plane, lay),
                    line == s.line(d0.active_plane, lay, a as int),
                    a < sprite_h,
                    b <= sprite_w,
                    s.progress(d0, display@, lay, a as int, b as int),
                    collision == 0 || collision == 1,
                    collision == 0 ==> s.clean(d0, lay, a as int, b as int),
                    collision == 1 ==> s.collides(d0),
                decreases sprite_w - b,
            {
                let bit: u16 = (sprite_w - 1 - b) as u16;
                proof { lemma_bit(line, bit); }
                let mut pixel = (line & (1u16 << bit)) >> bit;
                if clip_sprites && (x0 + b >= w || y0 + a >= h) {
                    pixel = 0;
                }
                let ghost drawn = s.drawn(d0, lay, a as int, b as int);
                assert((pixel != 0) == drawn);
                let ghost cur = display@;
                let ghost mut p0: int = 0;
                let mut hit: u8 = 0;
                if pixel != 0 {
                    let pos_x = if x0 + b >= w { (x0 + b) % w } else { x0 + b };
                    let pos_y = if y0 + a >= h { (y0 + a) % h } else { y0 + a };
                    proof {
                        p0 = pos_y * w + pos_x;
                        lemma_wrap(x0 as int, b as int, w as int);
                        lemma_wrap(y0 as int, a as int, h as int);
                        lemma_grid(pos_x as int, pos_y as int, w as int, h as int);
                        assert(s.at_cell(d0, p0, a as int, b as int));
                        assert forall|p: int| 0 <= p < d0.planes[lay].len() && p != p0 implies
                            !#[trigger] s.at_cell(d0, p, a as int, b as int) by {
                            lemma_split(p, w as int, h as int);
                            if s.at_cell(d0, p, a as int, b as int) {
                                assert(p / (w as int) == pos_y);
                                assert(p % (w as int) == pos_x);
                            }
                        }
                    }
                    hit = display.set_plane_pixel(layer, pos_x, pos_y);
                }
                proof {
                    lemma_cell(s, d0, cur, display@, lay, a as int, b as int, drawn, p0);
                }
                if hit == 1 {
                    collision = 1;
                    assert(s.hits(d0, lay, p0));
                }
                b += 1;
            }
            proof {
                assert forall|p: int| 0 <= p < d0.planes[lay].len() && #[trigger] s.covers(d0, lay, p) implies
                    (s.before(d0, p, a as int, sprite_w as int) == s.before(d0, p, a as int + 1, 0)) by {}
            }
            a += 1;
        }
        proof {
            assert forall|p: int| 0 <= p < d0.planes[lay].len() && #[trigger] s.covers(d0, lay, p) implies
                s.before(d0, p, sprite_h as int, 0) by {}
            lemma_layer_done(s, d0, display@, lay, sprite_h as int);
        }
        i += step;
        layer += 1;
    }
    assert(display@.planes =~= s.result(d0).planes);
    proof {
        if collision == 0 {
            assert(s.clean(d0, 2, 0, 0));
            if s.collides(d0) {
                let (l, p) = choose|l: int, p: int|
                    0 <= l < PLANE_COUNT && 0 <= p < d0.planes[l].len() && #[trigger] s.covers(d0, l, p)
                        && d0.planes[l][p] != 0;
                assert(s.hits(d0, l, p));
            }
        }
    }
    collision
}

} // verus!
