//! The display: two planes of pixels, a resolution and the set of planes that
//! drawing affects.
//!
//! There are two planes, 0 and 1; the active-plane mask selects them by bit
//! (bit 0 for plane 0, bit 1 for plane 1), so mask 3 draws to both. Plane 0
//! is the regular monochrome display of plain CHIP-8 programs only when the
//! mask selects it; the default mask is 1.

use vstd::prelude::*;

verus! {

/// Screen width constant
pub const DEFAULT_SCREEN_WIDTH: usize = 64;

/// Screen height constant
pub const DEFAULT_SCREEN_HEIGHT: usize = 32;

/// Low resolution screen size constant
pub const SCREEN_SIZE_LOW: usize = 2048;

/// High resolution screen size constant
pub const SCREEN_SIZE_HIGH: usize = 8192;

/// Display resolution
#[derive(Debug, Clone, Copy, PartialEq, Eq, Structural)]
pub enum DisplayResolution {
    Low,
    High,
}

/// Width in pixels of a resolution.
pub open spec fn res_width(r: DisplayResolution) -> nat {
    match r {
        DisplayResolution::Low => 64,
        DisplayResolution::High => 128,
    }
}

/// Height in pixels of a resolution.
pub open spec fn res_height(r: DisplayResolution) -> nat {
    match r {
        DisplayResolution::Low => 32,
        DisplayResolution::High => 64,
    }
}

/// Number of pixels of a plane at a resolution.
pub open spec fn res_size(r: DisplayResolution) -> nat {
    res_width(r) * res_height(r)
}

impl DisplayResolution {
    /// Get the resolution size
    pub fn resolution_size(&self) -> (size: usize)
        ensures
            size == res_size(*self),
    {
        match self {
            DisplayResolution::Low => SCREEN_SIZE_LOW,
            DisplayResolution::High => SCREEN_SIZE_HIGH,
        }
    }

    /// Get the resolution size XY
    pub fn resolution_size_xy(&self) -> (xy: (usize, usize))
        ensures
            xy.0 == res_width(*self),
            xy.1 == res_height(*self),
    {
        match self {
            DisplayResolution::Low => (DEFAULT_SCREEN_WIDTH, DEFAULT_SCREEN_HEIGHT),
            DisplayResolution::High => (DEFAULT_SCREEN_WIDTH * 2, DEFAULT_SCREEN_HEIGHT * 2),
        }
    }

    /// Get the resolution as a string
    pub fn resolution_str(&self) -> (name: &'static str)
        ensures
            name@ == resolution_name(*self),
    {
        match self {
            DisplayResolution::Low => "Low",
            DisplayResolution::High => "High",
        }
    }
}

/// The name of a resolution.
pub open spec fn resolution_name(r: DisplayResolution) -> Seq<char> {
    match r {
        DisplayResolution::Low => "Low"@,
        DisplayResolution::High => "High"@,
    }
}

/// What the display holds, as mathematical values.
#[verifier::ext_equal]
pub struct DisplayState {
    /// The pixels of each plane, row by row.
    pub planes: Seq<Seq<u8>>,
    pub resolution: DisplayResolution,
    /// Mask of the planes that drawing affects.
    pub active_plane: usize,
}

/// Number of planes of the display.
pub const PLANE_COUNT: usize = 2;

/// Whether plane `layer` is selected by the mask `mask`.
pub open spec fn plane_active(mask: usize, layer: int) -> bool {
    mask & ((layer + 1) as usize) != 0
}

/// A plane of `n` dark pixels.
pub open spec fn blank(n: nat) -> Seq<u8> {
    Seq::new(n, |i: int| 0u8)
}

/// The display at power-on: two dark low-resolution planes, plane 0 selected.
pub open spec fn default_display() -> DisplayState {
    DisplayState {
        planes: Seq::new(2, |l: int| blank(SCREEN_SIZE_LOW as nat)),
        resolution: DisplayResolution::Low,
        active_plane: 1,
    }
}

impl DisplayState {
    /// The planes have the length of the resolution, and there are two.
    pub open spec fn wf(self) -> bool {
        &&& self.planes.len() == PLANE_COUNT
        &&& forall|l: int| 0 <= l < PLANE_COUNT ==> #[trigger] self.planes[l].len() == res_size(self.resolution)
    }

    /// Pixels per row at the display's resolution.
    pub open spec fn width(self) -> nat {
        res_width(self.resolution)
    }

    /// Rows at the display's resolution.
    pub open spec fn height(self) -> nat {
        res_height(self.resolution)
    }

    /// Every pixel is 0 or 1.
    pub open spec fn binary(self) -> bool {
        forall|l: int, i: int| 0 <= l < self.planes.len() && 0 <= i < self.planes[l].len()
            ==> #[trigger] self.planes[l][i] <= 1
    }

    /// Applies `f` to each plane that the mask selects and keeps the others.
    pub open spec fn map_active(self, f: spec_fn(Seq<u8>) -> Seq<u8>) -> DisplayState {
        DisplayState {
            planes: Seq::new(
                self.planes.len(),
                |l: int| if plane_active(self.active_plane, l) { f(self.planes[l]) } else { self.planes[l] },
            ),
            ..self
        }
    }

    /// Plane `plane` made dark.
    pub open spec fn cleared(self, plane: int) -> DisplayState {
        DisplayState { planes: self.planes.update(plane, blank(res_size(self.resolution))), ..self }
    }

    /// Every plane made dark at resolution `r`.
    pub open spec fn with_resolution(self, r: DisplayResolution) -> DisplayState {
        DisplayState {
            planes: Seq::new(self.planes.len(), |l: int| blank(res_size(r))),
            resolution: r,
            ..self
        }
    }

    /// The active planes shifted left by `p` pixels, dark pixels entering on the right.
    pub open spec fn scrolled_left(self, p: nat) -> DisplayState {
        let w = self.width();
        self.map_active(|px: Seq<u8>| Seq::new(px.len(), |i: int| if i % (w as int) + p < w { px[i + p] } else { 0u8 }))
    }

    /// The active planes shifted right by `p` pixels, dark pixels entering on the left.
    pub open spec fn scrolled_right(self, p: nat) -> DisplayState {
        let w = self.width();
        self.map_active(|px: Seq<u8>| Seq::new(px.len(), |i: int| if i % (w as int) >= p { px[i - p] } else { 0u8 }))
    }

    /// The active planes shifted up by `p` rows, dark rows entering at the bottom.
    pub open spec fn scrolled_up(self, p: nat) -> DisplayState {
        let shift = self.width() * p;
        self.map_active(|px: Seq<u8>| Seq::new(px.len(), |i: int| if i + shift < px.len() { px[i + shift] } else { 0u8 }))
    }

    /// The active planes shifted down by `p` rows, dark rows entering at the top.
    pub open spec fn scrolled_down(self, p: nat) -> DisplayState {
        let shift = self.width() * p;
        self.map_active(|px: Seq<u8>| Seq::new(px.len(), |i: int| if i < shift { 0u8 } else { px[i - shift] }))
    }

    /// Pixel `index` of `plane` inverted: a dark pixel lit, any other darkened.
    pub open spec fn toggled(self, plane: int, index: int) -> DisplayState {
        DisplayState {
            planes: self.planes.update(
                plane,
                self.planes[plane].update(index, if self.planes[plane][index] == 0 { 1u8 } else { 0u8 }),
            ),
            ..self
        }
    }
}


/// A position `p` columns to the right of index `i` stays in the same row,
/// so inside a plane of whole rows.
proof fn lemma_same_row(i: int, p: int, w: int, len: int)
    requires
        w > 0,
        0 <= i < len,
        p >= 0,
        len % w == 0,
        i % w + p < w,
    ensures
        i + p < len,
{
    let q = i / w;
    let r = i % w;
    let k = len / w;
    vstd::arithmetic::div_mod::lemma_fundamental_div_mod(i, w);
    vstd::arithmetic::div_mod::lemma_fundamental_div_mod(len, w);
    assert(i == w * q + r);
    assert(len == w * k);
    assert(q < k) by (nonlinear_arith)
        requires
            i == w * q + r,
            len == w * k,
            i < len,
            0 <= r < w,
            w > 0,
    ;
    assert(w * q + w <= w * k) by (nonlinear_arith)
        requires
            q < k,
            w > 0,
    ;
}

/// A remainder is no larger than the number divided.
pub proof fn lemma_mod_le(i: int, w: int)
    requires
        i >= 0,
        w > 0,
    ensures
        i % w <= i,
{
    vstd::arithmetic::div_mod::lemma_fundamental_div_mod(i, w);
    vstd::arithmetic::div_mod::lemma_div_pos_is_pos(i, w);
    assert(w * (i / w) >= 0) by (nonlinear_arith)
        requires
            w > 0,
            i / w >= 0,
    ;
}

/// A position `p` columns to the right of index `i` in a row stays in the
/// plane.
pub proof fn lemma_stays_in_plane(i: int, p: int, w: int, len: int, r: DisplayResolution)
    requires
        w == res_width(r),
        len == res_size(r),
        0 <= i < len,
        p >= 0,
        i % w + p < w,
    ensures
        i + p < len,
{
    lemma_whole_rows(r);
    lemma_same_row(i, p, w, len);
}

/// A plane of whole rows has a length that the row width divides.
proof fn lemma_whole_rows(r: DisplayResolution)
    ensures
        (res_size(r) as int) % (res_width(r) as int) == 0,
{
    match r {
        DisplayResolution::Low => assert(2048int % 64 == 0),
        DisplayResolution::High => assert(8192int % 128 == 0),
    }
}

/// The pixels of a plane of rows `w` wide, each row shifted left by `p`.
fn shifted_left(px: &Vec<u8>, w: usize, p: usize) -> (out: Vec<u8>)
    requires
        w > 0,
        p <= w,
        (px@.len() as int) % (w as int) == 0,
    ensures
        out@ == Seq::new(px@.len(), |i: int| if i % (w as int) + p < w { px@[i + p] } else { 0u8 }),
{
    let n = px.len();
    let mut out: Vec<u8> = Vec::with_capacity(n);
    let mut i: usize = 0;
    while i < n
        invariant
            n == px@.len(),
            w > 0,
            p <= w,
            (px@.len() as int) % (w as int) == 0,
            i <= n,
            out@.len() == i,
            forall|j: int| 0 <= j < i ==> #[trigger] out@[j] == (if j % (w as int) + p < w { px@[j + p] } else { 0u8 }),
        decreases n - i,
    {
        let v = if i % w < w - p {
            proof { lemma_same_row(i as int, p as int, w as int, n as int); }
            px[i + p]
        } else {
            0
        };
        out.push(v);
        i += 1;
    }
    assert(out@ =~= Seq::new(px@.len(), |i: int| if i % (w as int) + p < w { px@[i + p] } else { 0u8 }));
    out
}

/// The pixels of a plane of rows `w` wide, each row shifted right by `p`.
fn shifted_right(px: &Vec<u8>, w: usize, p: usize) -> (out: Vec<u8>)
    requires
        w > 0,
    ensures
        out@ == Seq::new(px@.len(), |i: int| if i % (w as int) >= p { px@[i - p] } else { 0u8 }),
{
    let n = px.len();
    let mut out: Vec<u8> = Vec::with_capacity(n);
    let mut i: usize = 0;
    while i < n
        invariant
            n == px@.len(),
            w > 0,
            i <= n,
            out@.len() == i,
            forall|j: int| 0 <= j < i ==> #[trigger] out@[j] == (if j % (w as int) >= p { px@[j - p] } else { 0u8 }),
        decreases n - i,
    {
        let v = if i % w >= p {
            proof { lemma_mod_le(i as int, w as int); }
            px[i - p]
        } else {
            0
        };
        out.push(v);
        i += 1;
    }
    assert(out@ =~= Seq::new(px@.len(), |i: int| if i % (w as int) >= p { px@[i - p] } else { 0u8 }));
    out
}

/// The pixels of a plane moved `shift` places towards the start.
fn shifted_up(px: &Vec<u8>, shift: usize) -> (out: Vec<u8>)
    ensures
        out@ == Seq::new(px@.len(), |i: int| if i + shift < px@.len() { px@[i + shift] } else { 0u8 }),
{
    let n = px.len();
    let mut out: Vec<u8> = Vec::with_capacity(n);
    let mut i: usize = 0;
    while i < n
        invariant
            n == px@.len(),
            i <= n,
            out@.len() == i,
            forall|j: int| 0 <= j < i ==> #[trigger] out@[j] == (if j + shift < px@.len() { px@[j + shift] } else { 0u8 }),
        decreases n - i,
    {
        let v = if shift < n - i { px[i + shift] } else { 0 };
        out.push(v);
        i += 1;
    }
    assert(out@ =~= Seq::new(px@.len(), |i: int| if i + shift < px@.len() { px@[i + shift] } else { 0u8 }));
    out
}

/// The pixels of a plane moved `shift` places towards the end.
fn shifted_down(px: &Vec<u8>, shift: usize) -> (out: Vec<u8>)
    ensures
        out@ == Seq::new(px@.len(), |i: int| if i < shift { 0u8 } else { px@[i - shift] }),
{
    let n = px.len();
    let mut out: Vec<u8> = Vec::with_capacity(n);
    let mut i: usize = 0;
    while i < n
        invariant
            n == px@.len(),
            i <= n,
            out@.len() == i,
            forall|j: int| 0 <= j < i ==> #[trigger] out@[j] == (if j < shift { 0u8 } else { px@[j - shift] }),
        decreases n - i,
    {
        let v = if i < shift { 0 } else { px[i - shift] };
        out.push(v);
        i += 1;
    }
    assert(out@ =~= Seq::new(px@.len(), |i: int| if i < shift { 0u8 } else { px@[i - shift] }));
    out
}

/// Which way a scroll moves the active planes.
enum Scroll {
    Left,
    Right,
    Up,
    Down,
}

/// Struct for a plane of pixels on the display
#[derive(Debug, Clone)]
pub struct Plane {
    pub pixels: Vec<u8>,
}

impl Default for Plane {
    fn default() -> (plane: Self)
        ensures
            plane.pixels@ == blank(SCREEN_SIZE_LOW as nat),
    {
        let pixels = vec![0u8; SCREEN_SIZE_LOW];
        assert(pixels@ =~= blank(SCREEN_SIZE_LOW as nat));
        Plane { pixels }
    }
}

/// Struct representing the display of the Chip-8
#[derive(Debug)]
pub struct Display {
    /// The pixels in the display
    pub planes: Vec<Plane>,
    /// The resolution of the display
    pub resolution: DisplayResolution,
    /// Which plane is active for drawing
    pub active_plane: usize,
}

impl View for Display {
    type V = DisplayState;

    open spec fn view(&self) -> DisplayState {
        DisplayState {
            planes: Seq::new(self.planes@.len(), |l: int| self.planes@[l].pixels@),
            resolution: self.resolution,
            active_plane: self.active_plane,
        }
    }
}

impl Default for Display {
    fn default() -> (display: Self)
        ensures
            display@ == default_display(),
            display@.wf(),
    {
        let mut planes: Vec<Plane> = Vec::new();
        planes.push(Plane::default());
        planes.push(Plane::default());
        let display = Display { planes, resolution: DisplayResolution::Low, active_plane: 1 };
        assert(display@ =~= default_display());
        display
    }
}

impl Display {
    /// Get the two planes side by side: pair `i` holds pixel `i` of plane 0 and of plane 1.
    pub fn zipped_iterator(&self) -> (pairs: Vec<(u8, u8)>)
        requires
            self@.wf(),
        ensures
            pairs@.len() == res_size(self@.resolution),
            forall|i: int| 0 <= i < pairs@.len() ==> #[trigger] pairs@[i] == (self@.planes[0][i], self@.planes[1][i]),
    {
        let n = self.planes[0].pixels.len();
        let mut pairs: Vec<(u8, u8)> = Vec::with_capacity(n);
        let mut i: usize = 0;
        while i < n
            invariant
                self@.wf(),
                n == self@.planes[0].len(),
                i <= n,
                pairs@.len() == i,
                forall|j: int| 0 <= j < i ==> #[trigger] pairs@[j] == (self@.planes[0][j], self@.planes[1][j]),
            decreases n - i,
        {
            assert(self@.planes[1].len() == n);
            assert(self@.planes[1] == self.planes@[1].pixels@);
            pairs.push((self.planes[0].pixels[i], self.planes[1].pixels[i]));
            i += 1;
        }
        pairs
    }

    /// Get the display resolution
    pub fn resolution(&self) -> (r: DisplayResolution)
        ensures
            r == self@.resolution,
    {
        self.resolution
    }

    /// Set the display resolution; every plane is cleared to the new size.
    pub fn set_resolution(&mut self, resolution: DisplayResolution)
        requires
            old(self)@.wf(),
        ensures
            final(self)@ == old(self)@.with_resolution(resolution),
            final(self)@.wf(),
    {
        self.resolution = resolution;
        self.clear_all();
        assert(self@.planes =~= old(self)@.with_resolution(resolution).planes);
    }

    /// Get the screen size XY
    pub fn screen_size_xy(&self) -> (xy: (usize, usize))
        ensures
            xy.0 == self@.width(),
            xy.1 == self@.height(),
    {
        self.resolution.resolution_size_xy()
    }

    /// Get the screen size
    pub fn screen_size(&self) -> (size: usize)
        ensures
            size == res_size(self@.resolution),
    {
        self.resolution.resolution_size()
    }

    /// Get the pixels of a plane
    pub fn plane_pixels(&self, plane: usize) -> (pixels: &Vec<u8>)
        requires
            plane < self@.planes.len(),
        ensures
            pixels@ == self@.planes[plane as int],
    {
        &self.planes[plane].pixels
    }

    /// Clear a plane: every pixel dark, at the size of the resolution.
    pub fn clear(&mut self, plane: usize)
        requires
            plane < old(self)@.planes.len(),
        ensures
            final(self)@ == old(self)@.cleared(plane as int),
    {
        let size = self.screen_size();
        let pixels = vec![0u8; size];
        assert(pixels@ =~= blank(res_size(self@.resolution)));
        self.planes.set(plane, Plane { pixels });
        assert(self@.planes =~= old(self)@.cleared(plane as int).planes);
    }

    /// Clear every plane.
    fn clear_all(&mut self)
        requires
            old(self)@.planes.len() == PLANE_COUNT,
        ensures
            final(self)@.planes.len() == PLANE_COUNT,
            final(self)@.resolution == old(self)@.resolution,
            final(self)@.active_plane == old(self)@.active_plane,
            forall|l: int| 0 <= l < PLANE_COUNT ==> #[trigger] final(self)@.planes[l] == blank(res_size(old(self)@.resolution)),
    {
        let count = self.plane_count();
        let mut plane: usize = 0;
        while plane < count
            invariant
                count == PLANE_COUNT,
                plane <= count,
                self@.planes.len() == PLANE_COUNT,
                self@.resolution == old(self)@.resolution,
                self@.active_plane == old(self)@.active_plane,
                forall|l: int| 0 <= l < plane ==> #[trigger] self@.planes[l] == blank(res_size(self@.resolution)),
            decreases count - plane,
        {
            self.clear(plane);
            plane += 1;
        }
    }

    /// Toggle a pixel at the given x and y coordinates.
    ///
    /// Returns 1 if a lit pixel was darkened (a collision), 0 otherwise.
    pub fn set_plane_pixel(&mut self, plane: usize, x: usize, y: usize) -> (collision: u8)
        requires
            plane < old(self)@.planes.len(),
            y * old(self)@.width() + x < old(self)@.planes[plane as int].len(),
        ensures
            final(self)@ == old(self)@.toggled(plane as int, y * old(self)@.width() + x),
            collision == (if old(self)@.planes[plane as int][y * old(self)@.width() + x] == 0 { 0u8 } else { 1u8 }),
    {
        let n = self.planes[plane].pixels.len();
        assert(self@.planes[plane as int] == self.planes@[plane as int].pixels@);
        let index = self.pixel_index(x, y);
        let was = self.planes[plane].pixels[index];
        let now: u8 = if was == 0 { 1 } else { 0 };
        self.planes[plane].pixels.set(index, now);
        assert(self@.planes =~= old(self)@.toggled(plane as int, index as int).planes);
        if was == 0 { 0 } else { 1 }
    }

    /// Set the active plane mask: the two low bits of `plane`.
    pub fn set_active_plane(&mut self, plane: usize)
        ensures
            final(self)@ == (DisplayState { active_plane: plane & 3, ..old(self)@ }),
    {
        self.active_plane = plane & 0x3;
    }

    /// Number of planes.
    pub fn plane_count(&self) -> (count: usize)
        ensures
            count == self@.planes.len(),
    {
        self.planes.len()
    }

    /// Get the active plane
    pub fn active_plane(&self) -> (mask: usize)
        ensures
            mask == self@.active_plane,
    {
        self.active_plane
    }

    /// The display after a scroll of `amount` in direction `dir`.
    spec fn scroll_result(d: DisplayState, dir: Scroll, amount: nat) -> DisplayState {
        match dir {
            Scroll::Left => d.scrolled_left(amount),
            Scroll::Right => d.scrolled_right(amount),
            Scroll::Up => d.scrolled_up(amount),
            Scroll::Down => d.scrolled_down(amount),
        }
    }

    /// Scrolls every active plane; the work shared by the four scrolls.
    fn scroll(&mut self, dir: Scroll, amount: u8)
        requires
            old(self)@.wf(),
            dir is Left ==> amount <= old(self)@.width(),
            dir is Up ==> amount <= old(self)@.height(),
        ensures
            final(self)@ == Self::scroll_result(old(self)@, dir, amount as nat),
            final(self)@.wf(),
    {
        let (width, height) = self.screen_size_xy();
        assert(width <= 128);
        let shift: usize = width * (amount as usize);
        let count = self.plane_count();
        let ghost target = Self::scroll_result(old(self)@, dir, amount as nat);
        assert(target.planes.len() == PLANE_COUNT);
        let mut layer: usize = 0;
        while layer < count
            invariant
                old(self)@.wf(),
                dir is Left ==> amount <= old(self)@.width(),
                target == Self::scroll_result(old(self)@, dir, amount as nat),
                width == old(self)@.width(),
                shift == width * amount,
                count == PLANE_COUNT,
                layer <= count,
                self@.planes.len() == PLANE_COUNT,
                self@.resolution == old(self)@.resolution,
                self@.active_plane == old(self)@.active_plane,
                forall|l: int| 0 <= l < layer ==> #[trigger] self@.planes[l] == target.planes[l],
                forall|l: int| layer <= l < PLANE_COUNT ==> #[trigger] self@.planes[l] == old(self)@.planes[l],
            decreases count - layer,
        {
            if self.active_plane() & (layer + 1) != 0 {
                assert(self@.planes[layer as int] == self.planes@[layer as int].pixels@);
                let px = &self.planes[layer].pixels;
                assert(px@ == old(self)@.planes[layer as int]);
                let moved = match dir {
                    Scroll::Left => {
                        proof { lemma_whole_rows(old(self)@.resolution); }
                        shifted_left(px, width, amount as usize)
                    },
                    Scroll::Right => shifted_right(px, width, amount as usize),
                    Scroll::Up => shifted_up(px, shift),
                    Scroll::Down => shifted_down(px, shift),
                };
                assert(moved@ == target.planes[layer as int]);
                let ghost before = self@.planes;
                self.planes.set(layer, Plane { pixels: moved });
                assert(forall|l: int| 0 <= l < PLANE_COUNT && l != layer ==> #[trigger] self@.planes[l] == before[l]);
            } else {
                assert(target.planes[layer as int] == old(self)@.planes[layer as int]);
            }
            layer += 1;
        }
        assert(self@.planes =~= target.planes);
    }

    /// Scroll planes left by the given number of pixels
    pub fn scroll_left(&mut self, pixels: u8)
        requires
            old(self)@.wf(),
            pixels <= old(self)@.width(),
        ensures
            final(self)@ == old(self)@.scrolled_left(pixels as nat),
            final(self)@.wf(),
    {
        self.scroll(Scroll::Left, pixels)
    }

    /// Scroll planes right by the given number of pixels
    pub fn scroll_right(&mut self, pixels: u8)
        requires
            old(self)@.wf(),
        ensures
            final(self)@ == old(self)@.scrolled_right(pixels as nat),
            final(self)@.wf(),
    {
        self.scroll(Scroll::Right, pixels)
    }

    /// Scroll planes up by the given number of pixels
    pub fn scroll_up(&mut self, pixels: u8)
        requires
            old(self)@.wf(),
            pixels <= old(self)@.height(),
        ensures
            final(self)@ == old(self)@.scrolled_up(pixels as nat),
            final(self)@.wf(),
    {
        self.scroll(Scroll::Up, pixels)
    }

    /// Scroll planes down by the given number of pixels
    pub fn scroll_down(&mut self, pixels: u8)
        requires
            old(self)@.wf(),
        ensures
            final(self)@ == old(self)@.scrolled_down(pixels as nat),
            final(self)@.wf(),
    {
        self.scroll(Scroll::Down, pixels)
    }

    /// Index of the pixel at column `x` and row `y`.
    pub fn pixel_index(&self, x: usize, y: usize) -> (index: usize)
        requires
            y * self@.width() + x <= usize::MAX,
        ensures
            index == y * self@.width() + x,
    {
        let (width, _) = self.screen_size_xy();
        y * width + x
    }
}

} // verus!
