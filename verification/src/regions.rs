//! Bright-region analysis of rendered RGBA8 preview frames.
//!
//! A pixel is "bright smoke" when its luma reaches 82 and one of its colour channels differs
//! from the clear colour by at least 16. Bright pixels that touch horizontally or vertically
//! form regions; the heuristics count the regions large enough to be smoke puffs and measure
//! the largest one.

use vstd::prelude::*;
use vstd::set_lib::*;

verus! {

/// Smallest bright region (in pixels) counted as a smoke blob.
pub const PREVIEW_MIN_BLOB_PIXELS: usize = 18;

/// Minimum channel difference from the clear colour of a bright smoke pixel.
pub const PREVIEW_CONTRAST_DELTA_THRESHOLD: u8 = 16;

/// Whether the single-precision luma `0.2126 r + 0.7152 g + 0.0722 b` (each product and sum
/// rounded to `f32`, left to right) is at least 82. It equals the exact test
/// `2126 r + 7152 g + 722 b >= 820000` except at the two colours on the exact boundary
/// that rounding brings below 82.
pub open spec fn luma_at_least_82(r: u8, g: u8, b: u8) -> bool {
    2126 * r + 7152 * g + 722 * b >= 820000
        && !(r == 164 && g == 55 && b == 108)
        && !(r == 246 && g == 28 && b == 134)
}

/// The absolute difference of two bytes.
pub open spec fn byte_diff(a: u8, b: u8) -> int {
    if a >= b { a - b } else { b - a }
}

/// The largest difference of the colour channels of `(r, g, b)` from `clear`.
pub open spec fn channel_delta(r: u8, g: u8, b: u8, clear: [u8; 4]) -> int {
    let dr = byte_diff(r, clear[0]);
    let dg = byte_diff(g, clear[1]);
    let db = byte_diff(b, clear[2]);
    if dr >= dg && dr >= db { dr } else if dg >= db { dg } else { db }
}

/// Whether the colour `(r, g, b)` is a bright smoke pixel against `clear`.
pub open spec fn bright_rgb(r: u8, g: u8, b: u8, clear: [u8; 4]) -> bool {
    luma_at_least_82(r, g, b) && channel_delta(r, g, b, clear) >= 16
}

/// A `w × h` RGBA8 frame and the clear colour it was rendered against.
pub struct Frame {
    pub rgba: Seq<u8>,
    pub w: int,
    pub h: int,
    pub clear: [u8; 4],
}

impl Frame {
    /// Number of pixels.
    pub open spec fn n(self) -> int {
        self.w * self.h
    }

    /// Whether pixel `p` lies in the frame and is a bright smoke pixel.
    pub open spec fn lit(self, p: int) -> bool {
        0 <= p < self.n() && bright_rgb(self.rgba[4 * p], self.rgba[4 * p + 1], self.rgba[4 * p + 2], self.clear)
    }

    /// Whether pixels `p` and `q` of the frame touch horizontally or vertically.
    pub open spec fn adjacent(self, p: int, q: int) -> bool {
        &&& 0 <= p < self.n()
        &&& 0 <= q < self.n()
        &&& {
            ||| q == p + 1 && p % self.w != self.w - 1
            ||| p == q + 1 && q % self.w != self.w - 1
            ||| q == p + self.w
            ||| p == q + self.w
        }
    }

    /// Whether `path` is a walk of bright pixels, each touching the next.
    pub open spec fn is_path(self, path: Seq<int>) -> bool {
        &&& path.len() >= 1
        &&& forall|k: int| 0 <= k < path.len() ==> self.lit(#[trigger] path[k])
        &&& forall|k: int| 0 <= k < path.len() - 1 ==> self.adjacent(#[trigger] path[k], path[k + 1])
    }

    /// Whether bright pixels `p` and `q` lie in the same bright region.
    pub open spec fn connected(self, p: int, q: int) -> bool {
        exists|path: Seq<int>| #[trigger] self.is_path(path) && path[0] == p && path.last() == q
    }

    /// The bright region of pixel `p` (empty when `p` is not bright).
    pub open spec fn region(self, p: int) -> Set<int> {
        Set::new(|q: int| self.connected(p, q))
    }

    /// Whether `p` is the first pixel, in row-major order, of its bright region.
    pub open spec fn is_root(self, p: int) -> bool {
        self.lit(p) && forall|j: int| 0 <= j < p ==> !#[trigger] self.connected(j, p)
    }

    /// Number of bright regions of at least 18 pixels whose first pixel is before `k`.
    pub open spec fn blobs_before(self, k: int) -> nat
        decreases k,
    {
        if k <= 0 {
            0
        } else {
            self.blobs_before(k - 1) + if self.is_root(k - 1) && self.region(k - 1).len() >= 18 { 1nat } else { 0nat }
        }
    }

    /// Size of the largest bright region whose first pixel is before `k` (0 if none).
    pub open spec fn largest_before(self, k: int) -> nat
        decreases k,
    {
        if k <= 0 {
            0
        } else {
            let prev = self.largest_before(k - 1);
            if self.is_root(k - 1) && self.region(k - 1).len() > prev { self.region(k - 1).len() } else { prev }
        }
    }

    /// Whether pixel `q` lies in the region of some pixel before `k`.
    pub open spec fn reached(self, k: int, q: int) -> bool {
        exists|j: int| 0 <= j < k && #[trigger] self.connected(j, q)
    }
}

/// A bright pixel is connected to itself.
pub proof fn lemma_connected_refl(f: Frame, p: int)
    requires
        f.lit(p),
    ensures
        f.connected(p, p),
{
    let path = seq![p];
    assert(f.is_path(path));
}

/// A region grows by a bright neighbour of its pixels.
pub proof fn lemma_connected_step(f: Frame, p: int, q: int, r: int)
    requires
        f.connected(p, q),
        f.adjacent(q, r),
        f.lit(r),
    ensures
        f.connected(p, r),
{
    let path = choose|path: Seq<int>| #[trigger] f.is_path(path) && path[0] == p && path.last() == q;
    let longer = path.push(r);
    assert forall|k: int| 0 <= k < longer.len() implies f.lit(#[trigger] longer[k]) by {
        if k < path.len() {
            assert(longer[k] == path[k]);
        }
    }
    assert forall|k: int| 0 <= k < longer.len() - 1 implies f.adjacent(#[trigger] longer[k], longer[k + 1]) by {
        if k < path.len() - 1 {
            assert(longer[k] == path[k] && longer[k + 1] == path[k + 1]);
        }
    }
    assert(f.is_path(longer));
}

/// Connection ends in bright pixels.
pub proof fn lemma_connected_lit(f: Frame, p: int, q: int)
    requires
        f.connected(p, q),
    ensures
        f.lit(p),
        f.lit(q),
{
    let path = choose|path: Seq<int>| #[trigger] f.is_path(path) && path[0] == p && path.last() == q;
    assert(f.lit(path[0]));
    assert(f.lit(path[path.len() - 1]));
}

/// Connection is symmetric.
pub proof fn lemma_connected_symm(f: Frame, p: int, q: int)
    requires
        f.connected(p, q),
    ensures
        f.connected(q, p),
{
    let path = choose|path: Seq<int>| #[trigger] f.is_path(path) && path[0] == p && path.last() == q;
    let rev = path.reverse();
    assert forall|k: int| 0 <= k < rev.len() implies f.lit(#[trigger] rev[k]) by {
        assert(rev[k] == path[path.len() - 1 - k]);
    }
    assert forall|k: int| 0 <= k < rev.len() - 1 implies f.adjacent(#[trigger] rev[k], rev[k + 1]) by {
        let j = path.len() - 2 - k;
        assert(rev[k] == path[j + 1] && rev[k + 1] == path[j]);
        assert(f.adjacent(path[j], path[j + 1]));
    }
    assert(f.is_path(rev));
    assert(rev[0] == q && rev.last() == p);
}

/// Connection is transitive.
pub proof fn lemma_connected_trans(f: Frame, p: int, q: int, r: int)
    requires
        f.connected(p, q),
        f.connected(q, r),
    ensures
        f.connected(p, r),
{
    let a = choose|path: Seq<int>| #[trigger] f.is_path(path) && path[0] == p && path.last() == q;
    let b = choose|path: Seq<int>| #[trigger] f.is_path(path) && path[0] == q && path.last() == r;
    let c = a + b.drop_first();
    assert forall|k: int| 0 <= k < c.len() implies f.lit(#[trigger] c[k]) by {
        if k < a.len() {
            assert(c[k] == a[k]);
        } else {
            assert(c[k] == b[k - a.len() + 1]);
        }
    }
    assert forall|k: int| 0 <= k < c.len() - 1 implies f.adjacent(#[trigger] c[k], c[k + 1]) by {
        if k < a.len() - 1 {
            assert(c[k] == a[k] && c[k + 1] == a[k + 1]);
        } else if k == a.len() - 1 {
            assert(c[k] == a[k] && a[k] == q && c[k + 1] == b[1]);
            assert(b[0] == q);
            assert(f.adjacent(b[0], b[1]));
        } else {
            let j = k - a.len() + 1;
            assert(c[k] == b[j] && c[k + 1] == b[j + 1]);
        }
    }
    assert(f.is_path(c));
    if b.len() == 1 {
        assert(c.last() == a.last());
    } else {
        assert(c.last() == b.last());
    }
}

} // verus!

verus! {

/// A prefix of a path connects its first pixel to its last.
proof fn lemma_path_prefix(f: Frame, path: Seq<int>, k: int)
    requires
        f.is_path(path),
        0 <= k < path.len(),
    ensures
        f.connected(path[0], path[k]),
{
    let pre = path.take(k + 1);
    assert forall|i: int| 0 <= i < pre.len() implies f.lit(#[trigger] pre[i]) by {
        assert(pre[i] == path[i]);
    }
    assert forall|i: int| 0 <= i < pre.len() - 1 implies f.adjacent(#[trigger] pre[i], pre[i + 1]) by {
        assert(pre[i] == path[i] && pre[i + 1] == path[i + 1]);
    }
    assert(f.is_path(pre));
    assert(pre[0] == path[0] && pre.last() == path[k]);
}

/// A set holding `p` that is closed under bright neighbours, except towards pixels outside
/// the region of `p`, holds the whole region of `p`.
proof fn lemma_region_within(f: Frame, p: int, s: Set<int>, outside: Seq<bool>)
    requires
        s.contains(p),
        outside.len() == f.n(),
        forall|c: int, q: int| #[trigger] s.contains(c) && #[trigger] f.adjacent(c, q) && f.lit(q)
            ==> s.contains(q) || outside[q],
        forall|q: int| 0 <= q < f.n() && #[trigger] outside[q] ==> !f.connected(p, q),
    ensures
        forall|q: int| #[trigger] f.connected(p, q) ==> s.contains(q),
{
    assert forall|q: int| #[trigger] f.connected(p, q) implies s.contains(q) by {
        let path = choose|path: Seq<int>| #[trigger] f.is_path(path) && path[0] == p && path.last() == q;
        lemma_path_stays(f, p, s, outside, path, path.len() - 1);
    }
}

proof fn lemma_path_stays(f: Frame, p: int, s: Set<int>, outside: Seq<bool>, path: Seq<int>, k: int)
    requires
        s.contains(p),
        outside.len() == f.n(),
        forall|c: int, q: int| #[trigger] s.contains(c) && #[trigger] f.adjacent(c, q) && f.lit(q)
            ==> s.contains(q) || outside[q],
        forall|q: int| 0 <= q < f.n() && #[trigger] outside[q] ==> !f.connected(p, q),
        f.is_path(path),
        path[0] == p,
        0 <= k < path.len(),
    ensures
        s.contains(path[k]),
    decreases k,
{
    if k > 0 {
        lemma_path_stays(f, p, s, outside, path, k - 1);
        let a = path[k - 1];
        let b = path[k];
        assert(f.adjacent(a, b));
        assert(f.lit(b));
        if !s.contains(b) {
            assert(outside[b]);
            lemma_path_prefix(f, path, k);
        }
    }
}

/// Whether pixel `p` of `rgba` is a bright smoke pixel against `clear`.
fn pixel_is_bright(rgba: &[u8], p: usize, clear: [u8; 4], Ghost(f): Ghost<Frame>) -> (b: bool)
    requires
        f.rgba == rgba@,
        f.clear == clear,
        0 <= p < f.n(),
        rgba@.len() == 4 * f.n(),
    ensures
        b == f.lit(p as int),
{
    let len = rgba.len();
    assert(4 * p + 3 < len);
    let r = rgba[4 * p];
    let g = rgba[4 * p + 1];
    let b = rgba[4 * p + 2];
    is_bright_rgb(r, g, b, clear)
}

/// Whether the colour `(r, g, b)` is a bright smoke pixel against `clear`.
pub fn is_bright_rgb(r: u8, g: u8, b: u8, clear: [u8; 4]) -> (bright: bool)
    ensures
        bright == bright_rgb(r, g, b, clear),
{
    let sum: u32 = 2126 * (r as u32) + 7152 * (g as u32) + 722 * (b as u32);
    let boundary = (r == 164 && g == 55 && b == 108) || (r == 246 && g == 28 && b == 134);
    let luma_ok = sum >= 820000 && !boundary;
    let dr = if r >= clear[0] { r - clear[0] } else { clear[0] - r };
    let dg = if g >= clear[1] { g - clear[1] } else { clear[1] - g };
    let db = if b >= clear[2] { b - clear[2] } else { clear[2] - b };
    let delta = if dr >= dg && dr >= db { dr } else if dg >= db { dg } else { db };
    luma_ok && delta >= PREVIEW_CONTRAST_DELTA_THRESHOLD
}

/// Whether the first three bytes of `px` are a bright smoke colour against `clear`.
pub fn is_bright_smoke_pixel(px: &[u8], clear: [u8; 4]) -> (bright: bool)
    requires
        px@.len() >= 3,
    ensures
        bright == bright_rgb(px@[0], px@[1], px@[2], clear),
{
    is_bright_rgb(px[0], px[1], px[2], clear)
}

/// Marks pixel `q` and pushes it on `stack` when it is bright and not yet marked.
fn visit(rgba: &[u8], clear: [u8; 4], visited: &mut Vec<bool>, stack: &mut Vec<usize>, q: usize,
    Ghost(f): Ghost<Frame>) -> (pushed: bool)
    requires
        f.rgba == rgba@,
        f.clear == clear,
        q < f.n(),
        rgba@.len() == 4 * f.n(),
        old(visited)@.len() == f.n(),
    ensures
        pushed == (!old(visited)@[q as int] && f.lit(q as int)),
        pushed ==> final(visited)@ == old(visited)@.update(q as int, true) && final(stack)@ == old(stack)@.push(q),
        !pushed ==> final(visited)@ == old(visited)@ && final(stack)@ == old(stack)@,
{
    if visited[q] {
        return false;
    }
    if !pixel_is_bright(rgba, q, clear, Ghost(f)) {
        return false;
    }
    visited.set(q, true);
    stack.push(q);
    true
}

} // verus!

verus! {

/// Whether `q` is one of the pixels held by `stack`.
pub open spec fn on_stack(stack: Seq<usize>, q: int) -> bool {
    exists|k: int| 0 <= k < stack.len() && #[trigger] stack[k] as int == q
}

/// The four neighbours of pixel `cur = cy * w + cx` and when they exist.
proof fn lemma_neighbors(f: Frame, cur: int, cx: int, cy: int)
    requires
        f.w > 0,
        f.h > 0,
        0 <= cur < f.n(),
        cx == cur % f.w,
        cy == cur / f.w,
    ensures
        cur == cy * f.w + cx,
        0 <= cx < f.w,
        0 <= cy < f.h,
        forall|q: int| f.adjacent(cur, q) <==> (
            (cx + 1 < f.w && q == cur + 1)
            || (cx >= 1 && q == cur - 1)
            || (cy + 1 < f.h && q == cur + f.w)
            || (cy >= 1 && q == cur - f.w)),
        cx + 1 < f.w ==> cur + 1 < f.n(),
        cx >= 1 ==> cur >= 1,
        cy + 1 < f.h ==> cur + f.w < f.n(),
        cy >= 1 ==> cur >= f.w,
{
    let w = f.w;
    let h = f.h;
    vstd::arithmetic::div_mod::lemma_fundamental_div_mod(cur, w);
    vstd::arithmetic::div_mod::lemma_mod_bound(cur, w);
    assert(cur == w * cy + cx);
    assert(cur == cy * w + cx) by (nonlinear_arith) requires cur == w * cy + cx;
    assert(0 <= cy) by (nonlinear_arith) requires cur == cy * w + cx, 0 <= cur, 0 <= cx < w;
    assert(cy < h) by (nonlinear_arith) requires cur == cy * w + cx, cur < w * h, 0 <= cx < w, w > 0;
    assert((cy + 1 < h) <==> cur + w < w * h) by (nonlinear_arith)
        requires cur == cy * w + cx, 0 <= cx < w, w > 0, 0 <= cy < h;
    assert((cy >= 1) <==> cur - w >= 0) by (nonlinear_arith)
        requires cur == cy * w + cx, 0 <= cx < w, w > 0, 0 <= cy;
    assert(cx + 1 < w ==> cur + 1 < w * h) by (nonlinear_arith)
        requires cur == cy * w + cx, 0 <= cx < w, w > 0, cy < h, 0 <= cy;
    if cx + 1 < w {
        assert((cur + 1) % w == cx + 1) by {
            vstd::arithmetic::div_mod::lemma_fundamental_div_mod_converse(cur + 1, w, cy, cx + 1);
        }
    } else {
        assert(cur + 1 == (cy + 1) * w + 0) by (nonlinear_arith) requires cur == cy * w + cx, cx == w - 1;
        assert((cur + 1) % w == 0) by {
            vstd::arithmetic::div_mod::lemma_fundamental_div_mod_converse(cur + 1, w, cy + 1, 0);
        }
    }
    if cx >= 1 {
        assert((cur - 1) % w == cx - 1) by {
            vstd::arithmetic::div_mod::lemma_fundamental_div_mod_converse(cur - 1, w, cy, cx - 1);
        }
    } else if cur >= 1 {
        assert(cur - 1 == (cy - 1) * w + (w - 1)) by (nonlinear_arith) requires cur == cy * w + cx, cx == 0;
        assert((cur - 1) % w == w - 1) by {
            vstd::arithmetic::div_mod::lemma_fundamental_div_mod_converse(cur - 1, w, cy - 1, w - 1);
        }
        assert(cy >= 1) by (nonlinear_arith) requires cur == cy * w + cx, cx == 0, cur >= 1, w > 0, cy >= 0;
    }
}

/// The bookkeeping of a region fill from seed `s`: `visited` is `old_v` plus the pixels
/// `newly` reached, all in the region of `s`; every reached pixel is either popped or waits,
/// once, on the stack.
pub open spec fn fill_state(f: Frame, s: int, old_v: Seq<bool>, visited: Seq<bool>, stack: Seq<usize>,
    newly: Set<int>, popped: Set<int>) -> bool {
    &&& visited.len() == f.n()
    &&& old_v.len() == f.n()
    &&& 0 <= s < f.n()
    &&& forall|q: int| 0 <= q < f.n() ==> (#[trigger] visited[q] <==> old_v[q] || newly.contains(q))
    &&& forall|q: int| #[trigger] newly.contains(q) ==> 0 <= q < f.n() && f.connected(s, q) && !old_v[q]
    &&& newly.finite()
    &&& newly.contains(s)
    &&& popped.finite()
    &&& forall|q: int| #[trigger] popped.contains(q) ==> newly.contains(q)
    &&& forall|q: int| #[trigger] newly.contains(q) ==> popped.contains(q) || on_stack(stack, q)
    &&& forall|k: int| 0 <= k < stack.len() ==> newly.contains(#[trigger] stack[k] as int)
        && !popped.contains(stack[k] as int)
    &&& forall|i: int, j: int| 0 <= i < j < stack.len() ==> #[trigger] stack[i] != #[trigger] stack[j]
}

/// Visits the neighbour `q` of the pixel `c` just popped: a bright unmarked `q` is marked,
/// pushed and counted as reached.
fn visit_neighbor(rgba: &[u8], clear: [u8; 4], visited: &mut Vec<bool>, stack: &mut Vec<usize>, q: usize,
    Ghost(f): Ghost<Frame>, Ghost(s): Ghost<int>, Ghost(c): Ghost<int>, Ghost(old_v): Ghost<Seq<bool>>,
    Ghost(newly): Ghost<Set<int>>, Ghost(popped): Ghost<Set<int>>) -> (reached: Ghost<Set<int>>)
    requires
        f.rgba == rgba@,
        f.clear == clear,
        rgba@.len() == 4 * f.n(),
        fill_state(f, s, old_v, old(visited)@, old(stack)@, newly, popped),
        popped.contains(c),
        f.adjacent(c, q as int),
    ensures
        fill_state(f, s, old_v, final(visited)@, final(stack)@, reached@, popped),
        f.lit(q as int) ==> final(visited)@[q as int],
        forall|p: int| 0 <= p < f.n() && #[trigger] old(visited)@[p] ==> final(visited)@[p],
{
    let ghost pre = stack@;
    if visit(rgba, clear, visited, stack, q, Ghost(f)) {
        proof {
            lemma_connected_step(f, s, c, q as int);
            assert(stack@[pre.len() as int] as int == q as int);
            let grown = newly.insert(q as int);
            assert forall|p: int| #[trigger] grown.contains(p) implies popped.contains(p) || on_stack(stack@, p) by {
                if p != q as int && !popped.contains(p) {
                    let k = choose|k: int| 0 <= k < pre.len() && #[trigger] pre[k] as int == p;
                    assert(stack@[k] as int == p);
                }
            }
            assert(fill_state(f, s, old_v, visited@, stack@, grown, popped));
        }
        Ghost(newly.insert(q as int))
    } else {
        Ghost(newly)
    }
}

/// Marks the bright region of `start` in `visited` and returns its size.
#[verifier::spinoff_prover]
#[verifier::rlimit(60)]
fn fill_region(rgba: &[u8], w: usize, h: usize, clear: [u8; 4], visited: &mut Vec<bool>, start: usize,
    Ghost(f): Ghost<Frame>) -> (area: usize)
    requires
        f.rgba == rgba@,
        f.w == w,
        f.h == h,
        f.clear == clear,
        w > 0,
        h > 0,
        w * h <= usize::MAX,
        rgba@.len() == 4 * f.n(),
        old(visited)@.len() == f.n(),
        start < f.n(),
        f.lit(start as int),
        forall|q: int| 0 <= q < f.n() && #[trigger] old(visited)@[q] ==> !f.connected(start as int, q),
    ensures
        final(visited)@.len() == f.n(),
        forall|q: int| 0 <= q < f.n() ==> (#[trigger] final(visited)@[q] <==> old(visited)@[q] || f.connected(start as int, q)),
        f.region(start as int).finite(),
        area == f.region(start as int).len(),
{
    let ghost n = f.n();
    let ghost old_v = visited@;
    let ghost s = start as int;
    proof {
        lemma_connected_refl(f, s);
    }
    visited.set(start, true);
    let mut stack: Vec<usize> = Vec::new();
    stack.push(start);
    let ghost mut newly: Set<int> = Set::empty().insert(s);
    let ghost mut popped: Set<int> = Set::empty();
    let mut area: usize = 0;
    assert(stack@[0] as int == s);
    assert(fill_state(f, s, old_v, visited@, stack@, newly, popped));
    while stack.len() > 0
        invariant
            f.rgba == rgba@,
            f.w == w,
            f.h == h,
            f.clear == clear,
            n == f.n(),
            n == w * h,
            w > 0,
            h > 0,
            w * h <= usize::MAX,
            rgba@.len() == 4 * n,
            !old_v[s],
            forall|q: int| 0 <= q < n && #[trigger] old_v[q] ==> !f.connected(s, q),
            fill_state(f, s, old_v, visited@, stack@, newly, popped),
            area == popped.len(),
            forall|c: int, q: int| #[trigger] popped.contains(c) && #[trigger] f.adjacent(c, q) && f.lit(q)
                ==> visited@[q],
        decreases n - popped.len(),
    {
        let ghost pre = stack@;
        let ghost v0 = visited@;
        let cur = stack.pop().unwrap();
        let ghost c = cur as int;
        proof {
            assert(pre[pre.len() - 1] == cur);
            assert(newly.contains(c) && !popped.contains(c));
            assert forall|q: int| #[trigger] newly.contains(q) implies popped.insert(c).contains(q) || on_stack(stack@, q) by {
                if !popped.contains(q) && q != c {
                    let k = choose|k: int| 0 <= k < pre.len() && #[trigger] pre[k] as int == q;
                    assert(k < stack@.len());
                    assert(stack@[k] as int == q);
                }
            }
            popped = popped.insert(c);
            vstd::set_lib::lemma_int_range(0, n);
            vstd::set_lib::lemma_len_subset(popped, vstd::set_lib::set_int_range(0, n));
            assert(fill_state(f, s, old_v, visited@, stack@, newly, popped));
        }
        area += 1;
        let cx = cur % w;
        let cy = cur / w;
        proof {
            lemma_neighbors(f, c, cx as int, cy as int);
        }
        if cx + 1 < w {
            let Ghost(g) = visit_neighbor(rgba, clear, visited, &mut stack, cur + 1, Ghost(f), Ghost(s), Ghost(c),
                Ghost(old_v), Ghost(newly), Ghost(popped));
            proof { newly = g; }
        }
        if cx >= 1 {
            let Ghost(g) = visit_neighbor(rgba, clear, visited, &mut stack, cur - 1, Ghost(f), Ghost(s), Ghost(c),
                Ghost(old_v), Ghost(newly), Ghost(popped));
            proof { newly = g; }
        }
        if cy + 1 < h {
            let Ghost(g) = visit_neighbor(rgba, clear, visited, &mut stack, cur + w, Ghost(f), Ghost(s), Ghost(c),
                Ghost(old_v), Ghost(newly), Ghost(popped));
            proof { newly = g; }
        }
        if cy >= 1 {
            let Ghost(g) = visit_neighbor(rgba, clear, visited, &mut stack, cur - w, Ghost(f), Ghost(s), Ghost(c),
                Ghost(old_v), Ghost(newly), Ghost(popped));
            proof { newly = g; }
        }
        proof {
            assert forall|p: int, q: int| #[trigger] popped.contains(p) && #[trigger] f.adjacent(p, q) && f.lit(q)
                implies visited@[q] by {
                if p != c {
                    assert(v0[q]);
                }
            }
        }
    }
    proof {
        assert(popped =~= newly);
        lemma_region_within(f, s, newly, old_v);
        assert(f.region(s) =~= newly);
    }
    area
}

} // verus!

verus! {

/// The frame view of an RGBA8 buffer of the given size.
pub open spec fn frame_of(rgba: Seq<u8>, width: u32, height: u32, clear: [u8; 4]) -> Frame {
    Frame { rgba, w: width as int, h: height as int, clear }
}

/// Whether `rgba` holds exactly a non-empty `width × height` frame.
pub open spec fn frame_ok(rgba: Seq<u8>, width: u32, height: u32) -> bool {
    width > 0 && height > 0 && rgba.len() == width * height * 4
}

proof fn lemma_blobs_bounded(f: Frame, k: int)
    requires
        k >= 0,
    ensures
        f.blobs_before(k) <= k,
    decreases k,
{
    if k > 0 {
        lemma_blobs_bounded(f, k - 1);
    }
}

/// One step of the scan: what is reached before `idx + 1` is what was reached before `idx`
/// plus the region of `idx`; and `idx` is a region's first pixel exactly when it is bright and
/// not yet reached.
proof fn lemma_scan_step(f: Frame, idx: int)
    requires
        0 <= idx < f.n(),
    ensures
        forall|q: int| #[trigger] f.reached(idx + 1, q) <==> f.reached(idx, q) || f.connected(idx, q),
        f.is_root(idx) <==> f.lit(idx) && !f.reached(idx, idx),
        f.reached(idx, idx) ==> forall|q: int| #[trigger] f.connected(idx, q) ==> f.reached(idx, q),
        !f.reached(idx, idx) ==> forall|q: int| #[trigger] f.reached(idx, q) ==> !f.connected(idx, q),
{
    assert forall|q: int| #[trigger] f.reached(idx + 1, q) implies f.reached(idx, q) || f.connected(idx, q) by {
        let j = choose|j: int| 0 <= j < idx + 1 && #[trigger] f.connected(j, q);
        if j < idx {
            assert(f.reached(idx, q));
        }
    }
    assert forall|q: int| f.reached(idx, q) || f.connected(idx, q) implies #[trigger] f.reached(idx + 1, q) by {
        if f.reached(idx, q) {
            let j = choose|j: int| 0 <= j < idx && #[trigger] f.connected(j, q);
            assert(f.connected(j, q));
        } else {
            assert(f.connected(idx, q));
        }
    }
    if f.reached(idx, idx) {
        let j = choose|j: int| 0 <= j < idx && #[trigger] f.connected(j, idx);
        assert forall|q: int| #[trigger] f.connected(idx, q) implies f.reached(idx, q) by {
            lemma_connected_trans(f, j, idx, q);
        }
    } else {
        assert forall|q: int| #[trigger] f.reached(idx, q) implies !f.connected(idx, q) by {
            if f.connected(idx, q) {
                let j = choose|j: int| 0 <= j < idx && #[trigger] f.connected(j, q);
                lemma_connected_symm(f, idx, q);
                lemma_connected_trans(f, j, q, idx);
                assert(f.reached(idx, idx));
            }
        }
    }
    if f.is_root(idx) {
        if f.reached(idx, idx) {
            let j = choose|j: int| 0 <= j < idx && #[trigger] f.connected(j, idx);
            assert(!f.connected(j, idx));
        }
    }
    if f.lit(idx) && !f.reached(idx, idx) {
        assert forall|j: int| 0 <= j < idx implies !#[trigger] f.connected(j, idx) by {
            if f.connected(j, idx) {
                assert(f.reached(idx, idx));
            }
        }
    }
}

/// Initially nothing is reached.
proof fn lemma_nothing_reached(f: Frame)
    ensures
        forall|q: int| !#[trigger] f.reached(0, q),
{
}

/// An all-false marker vector of length `n`.
fn unmarked(n: usize) -> (v: Vec<bool>)
    ensures
        v@.len() == n,
        forall|q: int| 0 <= q < n ==> !#[trigger] v@[q],
{
    let mut v: Vec<bool> = Vec::new();
    let mut k: usize = 0;
    while k < n
        invariant
            k <= n,
            v@.len() == k,
            forall|q: int| 0 <= q < k ==> !#[trigger] v@[q],
        decreases n - k,
    {
        v.push(false);
        k += 1;
    }
    v
}

/// Counts the bright regions of at least 18 pixels (smoke puffs, not grid specks): 4-connected
/// bright smoke pixels, each region counted once. Returns 0 unless `rgba` holds exactly a
/// non-empty `width × height` frame.
pub fn preview_bright_blob_count(rgba: &[u8], width: u32, height: u32, clear: [u8; 4]) -> (blobs: usize)
    requires
        width * height * 4 <= usize::MAX,
    ensures
        !frame_ok(rgba@, width, height) ==> blobs == 0,
        frame_ok(rgba@, width, height) ==> blobs == frame_of(rgba@, width, height, clear).blobs_before(width * height),
{
    let w = width as usize;
    let h = height as usize;
    if w == 0 || h == 0 || rgba.len() != w * h * 4 {
        return 0;
    }
    let ghost f = frame_of(rgba@, width, height, clear);
    let n = w * h;
    let mut visited = unmarked(n);
    let mut blobs: usize = 0;
    let mut idx: usize = 0;
    proof {
        lemma_nothing_reached(f);
    }
    while idx < n
        invariant
            f == frame_of(rgba@, width, height, clear),
            w == width,
            h == height,
            w > 0,
            h > 0,
            n == w * h,
            n == f.n(),
            rgba@.len() == 4 * n,
            w * h <= usize::MAX,
            idx <= n,
            visited@.len() == n,
            forall|q: int| 0 <= q < n ==> (#[trigger] visited@[q] <==> f.reached(idx as int, q)),
            blobs == f.blobs_before(idx as int),
        decreases n - idx,
    {
        proof {
            lemma_scan_step(f, idx as int);
            lemma_blobs_bounded(f, idx as int);
        }
        let ghost v0 = visited@;
        if !visited[idx] && pixel_is_bright(rgba, idx, clear, Ghost(f)) {
            let area = fill_region(rgba, w, h, clear, &mut visited, idx, Ghost(f));
            if area >= PREVIEW_MIN_BLOB_PIXELS {
                blobs += 1;
            }
        } else {
            proof {
                if !f.lit(idx as int) {
                    assert forall|q: int| !#[trigger] f.connected(idx as int, q) by {
                        if f.connected(idx as int, q) {
                            lemma_connected_lit(f, idx as int, q);
                        }
                    }
                }
            }
        }
        idx += 1;
    }
    blobs
}

/// Size of the largest bright region (4-connected bright smoke pixels), 0 when there is none
/// or when `rgba` does not hold exactly a non-empty `width × height` frame.
pub fn preview_largest_bright_region_area(rgba: &[u8], width: u32, height: u32, clear: [u8; 4]) -> (largest: usize)
    requires
        width * height * 4 <= usize::MAX,
    ensures
        !frame_ok(rgba@, width, height) ==> largest == 0,
        frame_ok(rgba@, width, height) ==> largest == frame_of(rgba@, width, height, clear).largest_before(width * height),
{
    let w = width as usize;
    let h = height as usize;
    if w == 0 || h == 0 || rgba.len() != w * h * 4 {
        return 0;
    }
    let ghost f = frame_of(rgba@, width, height, clear);
    let n = w * h;
    let mut visited = unmarked(n);
    let mut largest: usize = 0;
    let mut idx: usize = 0;
    proof {
        lemma_nothing_reached(f);
    }
    while idx < n
        invariant
            f == frame_of(rgba@, width, height, clear),
            w == width,
            h == height,
            w > 0,
            h > 0,
            n == w * h,
            n == f.n(),
            rgba@.len() == 4 * n,
            w * h <= usize::MAX,
            idx <= n,
            visited@.len() == n,
            forall|q: int| 0 <= q < n ==> (#[trigger] visited@[q] <==> f.reached(idx as int, q)),
            largest == f.largest_before(idx as int),
        decreases n - idx,
    {
        proof {
            lemma_scan_step(f, idx as int);
        }
        if !visited[idx] && pixel_is_bright(rgba, idx, clear, Ghost(f)) {
            let area = fill_region(rgba, w, h, clear, &mut visited, idx, Ghost(f));
            if area > largest {
                largest = area;
            }
        } else {
            proof {
                if !f.lit(idx as int) {
                    assert forall|q: int| !#[trigger] f.connected(idx as int, q) by {
                        if f.connected(idx as int, q) {
                            lemma_connected_lit(f, idx as int, q);
                        }
                    }
                }
            }
        }
        idx += 1;
    }
    largest
}

} // verus!

verus! {

impl Frame {
    /// Number of bright pixels before `k`.
    pub open spec fn bright_before(self, k: int) -> nat
        decreases k,
    {
        if k <= 0 {
            0
        } else {
            self.bright_before(k - 1) + if self.lit(k - 1) { 1nat } else { 0nat }
        }
    }

    /// Smallest column of a bright pixel before `k` (`w` if none).
    pub open spec fn min_col_before(self, k: int) -> int
        decreases k,
    {
        if k <= 0 {
            self.w
        } else {
            let m = self.min_col_before(k - 1);
            if self.lit(k - 1) && (k - 1) % self.w < m { (k - 1) % self.w } else { m }
        }
    }

    /// Smallest row of a bright pixel before `k` (`h` if none).
    pub open spec fn min_row_before(self, k: int) -> int
        decreases k,
    {
        if k <= 0 {
            self.h
        } else {
            let m = self.min_row_before(k - 1);
            if self.lit(k - 1) && (k - 1) / self.w < m { (k - 1) / self.w } else { m }
        }
    }

    /// Largest column of a bright pixel before `k` (0 if none).
    pub open spec fn max_col_before(self, k: int) -> int
        decreases k,
    {
        if k <= 0 {
            0
        } else {
            let m = self.max_col_before(k - 1);
            if self.lit(k - 1) && (k - 1) % self.w > m { (k - 1) % self.w } else { m }
        }
    }

    /// Largest row of a bright pixel before `k` (0 if none).
    pub open spec fn max_row_before(self, k: int) -> int
        decreases k,
    {
        if k <= 0 {
            0
        } else {
            let m = self.max_row_before(k - 1);
            if self.lit(k - 1) && (k - 1) / self.w > m { (k - 1) / self.w } else { m }
        }
    }
}

/// Bounding box statistics of the bright pixels of a frame.
#[derive(Debug, Clone, Copy, PartialEq, Eq, Structural)]
pub struct BrightBox {
    /// Number of bright pixels.
    pub area: usize,
    pub min_x: usize,
    pub min_y: usize,
    pub max_x: usize,
    pub max_y: usize,
}

proof fn lemma_div_mod_bounds(p: int, w: int, h: int)
    requires
        w > 0,
        0 <= p < w * h,
    ensures
        0 <= p % w < w,
        0 <= p / w < h,
{
    vstd::arithmetic::div_mod::lemma_fundamental_div_mod(p, w);
    vstd::arithmetic::div_mod::lemma_mod_bound(p, w);
    vstd::arithmetic::div_mod::lemma_div_pos_is_pos(p, w);
    assert(p / w < h) by (nonlinear_arith)
        requires p == w * (p / w) + p % w, 0 <= p % w, p < w * h, w > 0;
}

/// The bright pixel count and the bounding box of the bright pixels (columns and rows), or
/// `None` unless `rgba` holds exactly a non-empty `width × height` frame. With no bright pixel
/// the box is `(width, height)..(0, 0)`.
pub fn preview_bright_bbox(rgba: &[u8], width: u32, height: u32, clear: [u8; 4]) -> (r: Option<BrightBox>)
    requires
        width * height * 4 <= usize::MAX,
    ensures
        !frame_ok(rgba@, width, height) ==> r is None,
        frame_ok(rgba@, width, height) ==> (r matches Some(b) && ({
            let f = frame_of(rgba@, width, height, clear);
            let n = width * height;
            &&& b.area == f.bright_before(n)
            &&& b.min_x == f.min_col_before(n)
            &&& b.min_y == f.min_row_before(n)
            &&& b.max_x == f.max_col_before(n)
            &&& b.max_y == f.max_row_before(n)
        })),
{
    let w = width as usize;
    let h = height as usize;
    if w == 0 || h == 0 || rgba.len() != w * h * 4 {
        return None;
    }
    let ghost f = frame_of(rgba@, width, height, clear);
    let n = w * h;
    let mut b = BrightBox { area: 0, min_x: w, min_y: h, max_x: 0, max_y: 0 };
    let mut p: usize = 0;
    while p < n
        invariant
            f == frame_of(rgba@, width, height, clear),
            w == width,
            h == height,
            w > 0,
            h > 0,
            n == w * h,
            n == f.n(),
            rgba@.len() == 4 * n,
            p <= n,
            b.area == f.bright_before(p as int),
            b.area <= p,
            b.min_x == f.min_col_before(p as int),
            b.min_y == f.min_row_before(p as int),
            b.max_x == f.max_col_before(p as int),
            b.max_y == f.max_row_before(p as int),
            0 <= f.min_col_before(p as int) <= w,
            0 <= f.min_row_before(p as int) <= h,
            0 <= f.max_col_before(p as int) < w,
            0 <= f.max_row_before(p as int) < h,
        decreases n - p,
    {
        proof {
            lemma_div_mod_bounds(p as int, w as int, h as int);
        }
        if pixel_is_bright(rgba, p, clear, Ghost(f)) {
            let x = p % w;
            let y = p / w;
            b.area = b.area + 1;
            if x < b.min_x {
                b.min_x = x;
            }
            if y < b.min_y {
                b.min_y = y;
            }
            if x > b.max_x {
                b.max_x = x;
            }
            if y > b.max_y {
                b.max_y = y;
            }
        }
        p += 1;
    }
    Some(b)
}

/// Whether the single-precision luma of `(r, g, b)` is at least 52: the exact test
/// `2126 r + 7152 g + 722 b >= 520000` except at the three colours on the exact boundary that
/// rounding brings below 52.
pub open spec fn luma_at_least_52(r: u8, g: u8, b: u8) -> bool {
    2126 * r + 7152 * g + 722 * b >= 520000
        && !(r == 52 && g == 52 && b == 52)
        && !(r == 117 && g == 35 && b == 29)
        && !(r == 168 && g == 5 && b == 176)
}

impl Frame {
    /// Whether pixel `p` is smoke-toned: luma at least 52 and a channel at least 16 from clear.
    pub open spec fn smoke_toned(self, p: int) -> bool {
        let (r, g, b) = (self.rgba[4 * p], self.rgba[4 * p + 1], self.rgba[4 * p + 2]);
        luma_at_least_52(r, g, b) && channel_delta(r, g, b, self.clear) >= 16
    }

    /// Whether pixel `p` is strongly bright: luma at least 82 and a channel at least 24 from clear.
    pub open spec fn strongly_bright(self, p: int) -> bool {
        let (r, g, b) = (self.rgba[4 * p], self.rgba[4 * p + 1], self.rgba[4 * p + 2]);
        luma_at_least_82(r, g, b) && channel_delta(r, g, b, self.clear) >= 24
    }

    /// Number of pixels before `k` in the first `xe` columns that are smoke-toned.
    pub open spec fn smoke_toned_before(self, k: int, xe: int) -> nat
        decreases k,
    {
        if k <= 0 {
            0
        } else {
            self.smoke_toned_before(k - 1, xe) + if (k - 1) % self.w < xe && self.smoke_toned(k - 1) { 1nat } else { 0nat }
        }
    }

    /// Number of pixels before `k` in the first `xe` columns that are strongly bright.
    pub open spec fn strongly_bright_before(self, k: int, xe: int) -> nat
        decreases k,
    {
        if k <= 0 {
            0
        } else {
            self.strongly_bright_before(k - 1, xe) + if (k - 1) % self.w < xe && self.strongly_bright(k - 1) { 1nat } else { 0nat }
        }
    }
}

/// Half-extent of the centre window along an axis of `len` pixels: half the axis, at least 48.
pub open spec fn half_window(len: int) -> int {
    if len / 2 >= 48 { len / 2 } else { 48 }
}

/// End (exclusive) of the centre window along an axis of `len` pixels.
pub open spec fn window_end(len: int) -> int {
    if len / 2 + half_window(len) < len { len / 2 + half_window(len) } else { len }
}

/// Pixel counts of the centre window of a frame.
#[derive(Debug, Clone, Copy, PartialEq, Eq, Structural)]
pub struct PlumeCounts {
    /// Pixels in the window.
    pub center_total: usize,
    /// Smoke-toned pixels in the window.
    pub smoke_pixels: usize,
    /// Strongly bright pixels in the window.
    pub bright_pixels: usize,
}

/// Counts, over the centre window (columns `0..window_end(width)`, rows
/// `0..window_end(height)`), its pixels, its smoke-toned pixels and its strongly bright pixels;
/// `None` unless `rgba` holds exactly a non-empty `width × height` frame.
pub fn smoke_plume_counts(rgba: &[u8], width: u32, height: u32, clear: [u8; 4]) -> (r: Option<PlumeCounts>)
    requires
        width * height * 4 <= usize::MAX,
        width as int / 2 + half_window(width as int) <= i32::MAX,
        height as int / 2 + half_window(height as int) <= i32::MAX,
    ensures
        !frame_ok(rgba@, width, height) ==> r is None,
        frame_ok(rgba@, width, height) ==> (r matches Some(c) && ({
            let f = frame_of(rgba@, width, height, clear);
            let xe = window_end(width as int);
            let ye = window_end(height as int);
            &&& c.center_total == xe * ye
            &&& c.smoke_pixels == f.smoke_toned_before(ye * width, xe)
            &&& c.bright_pixels == f.strongly_bright_before(ye * width, xe)
        })),
{
    let w = width as usize;
    let h = height as usize;
    if w == 0 || h == 0 || rgba.len() != w * h * 4 {
        return None;
    }
    let ghost f = frame_of(rgba@, width, height, clear);
    let rx = if w / 2 >= 48 { w / 2 } else { 48 };
    let ry = if h / 2 >= 48 { h / 2 } else { 48 };
    let xe = if w / 2 + rx < w { w / 2 + rx } else { w };
    let ye = if h / 2 + ry < h { h / 2 + ry } else { h };
    assert(ye * w <= w * h) by (nonlinear_arith) requires ye <= h, w >= 0, h >= 0;
    assert(w * h <= usize::MAX);
    let m = ye * w;
    let mut smoke: usize = 0;
    let mut bright: usize = 0;
    let mut p: usize = 0;
    while p < m
        invariant
            f == frame_of(rgba@, width, height, clear),
            w == width,
            h == height,
            w > 0,
            m == ye * w,
            m <= w * h,
            xe == window_end(width as int),
            rgba@.len() == 4 * (w * h),
            p <= m,
            smoke == f.smoke_toned_before(p as int, xe as int),
            bright == f.strongly_bright_before(p as int, xe as int),
            smoke <= p,
            bright <= p,
        decreases m - p,
    {
        let x = p % w;
        if x < xe {
            let len = rgba.len();
            assert(4 * p + 3 < len) by (nonlinear_arith) requires p < m, m <= w * h, len == 4 * (w * h);
            let r = rgba[4 * p];
            let g = rgba[4 * p + 1];
            let b = rgba[4 * p + 2];
            let sum: u32 = 2126 * (r as u32) + 7152 * (g as u32) + 722 * (b as u32);
            let dr = if r >= clear[0] { r - clear[0] } else { clear[0] - r };
            let dg = if g >= clear[1] { g - clear[1] } else { clear[1] - g };
            let db = if b >= clear[2] { b - clear[2] } else { clear[2] - b };
            let delta = if dr >= dg && dr >= db { dr } else if dg >= db { dg } else { db };
            let at_52 = sum >= 520000 && !(r == 52 && g == 52 && b == 52) && !(r == 117 && g == 35 && b == 29)
                && !(r == 168 && g == 5 && b == 176);
            let at_82 = sum >= 820000 && !(r == 164 && g == 55 && b == 108) && !(r == 246 && g == 28 && b == 134);
            if at_52 && delta >= 16 {
                smoke += 1;
            }
            if at_82 && delta >= 24 {
                bright += 1;
            }
        }
        p += 1;
    }
    assert(xe * ye <= w * h) by (nonlinear_arith) requires xe <= w, ye <= h, xe >= 0, ye >= 0;
    Some(PlumeCounts { center_total: xe * ye, smoke_pixels: smoke, bright_pixels: bright })
}

} // verus!

verus! {

broadcast use vstd::std_specs::hash::group_hash_axioms;

/// The channel difference of pixel `p` from `clear`.
pub open spec fn pixel_delta(rgba: Seq<u8>, p: int, clear: [u8; 4]) -> int {
    channel_delta(rgba[4 * p], rgba[4 * p + 1], rgba[4 * p + 2], clear)
}

/// The largest channel difference from `clear` among the first `n` pixels (0 for none).
pub open spec fn max_delta_before(rgba: Seq<u8>, clear: [u8; 4], n: int) -> int
    decreases n,
{
    if n <= 0 {
        0
    } else {
        let d = pixel_delta(rgba, n - 1, clear);
        let m = max_delta_before(rgba, clear, n - 1);
        if d > m { d } else { m }
    }
}

/// The number of the first `n` pixels whose channel difference from `clear` reaches `t`.
pub open spec fn reaching_before(rgba: Seq<u8>, clear: [u8; 4], t: int, n: int) -> int
    decreases n,
{
    if n <= 0 {
        0
    } else {
        reaching_before(rgba, clear, t, n - 1) + if pixel_delta(rgba, n - 1, clear) >= t { 1int } else { 0 }
    }
}

/// The channel difference of `(r, g, b)` from `clear`.
pub fn rgb_delta(r: u8, g: u8, b: u8, clear: [u8; 4]) -> (d: u8)
    ensures
        d == channel_delta(r, g, b, clear),
{
    let dr = if r >= clear[0] { r - clear[0] } else { clear[0] - r };
    let dg = if g >= clear[1] { g - clear[1] } else { clear[1] - g };
    let db = if b >= clear[2] { b - clear[2] } else { clear[2] - b };
    if dr >= dg && dr >= db { dr } else if dg >= db { dg } else { db }
}

/// Contrast counts over the whole pixels of a frame: the largest channel difference from
/// `clear`, and how many pixels differ by at least 16.
pub fn contrast_counts(rgba: &[u8], clear: [u8; 4]) -> (r: (u8, usize))
    ensures
        r.0 == max_delta_before(rgba@, clear, (rgba@.len() / 4) as int),
        r.1 == reaching_before(rgba@, clear, PREVIEW_CONTRAST_DELTA_THRESHOLD as int, (rgba@.len() / 4) as int),
{
    let n = rgba.len() / 4;
    proof {
        vstd::arithmetic::div_mod::lemma_fundamental_div_mod(rgba@.len() as int, 4);
        vstd::arithmetic::div_mod::lemma_mod_pos_bound(rgba@.len() as int, 4);
    }
    let mut max_delta: u8 = 0;
    let mut reaching: usize = 0;
    let mut p: usize = 0;
    while p < n
        invariant
            n == rgba@.len() / 4,
            4 * n <= rgba@.len(),
            rgba@.len() <= usize::MAX,
            p <= n,
            max_delta == max_delta_before(rgba@, clear, p as int),
            reaching == reaching_before(rgba@, clear, PREVIEW_CONTRAST_DELTA_THRESHOLD as int, p as int),
            reaching <= p,
        decreases n - p,
    {
        let d = rgb_delta(rgba[4 * p], rgba[4 * p + 1], rgba[4 * p + 2], clear);
        if d > max_delta {
            max_delta = d;
        }
        if d >= PREVIEW_CONTRAST_DELTA_THRESHOLD {
            reaching += 1;
        }
        p += 1;
    }
    (max_delta, reaching)
}

/// The colour of pixel `p` packed as `r << 16 | g << 8 | b`.
pub open spec fn packed_color(rgba: Seq<u8>, p: int) -> u32 {
    (rgba[4 * p] * 65536 + rgba[4 * p + 1] * 256 + rgba[4 * p + 2]) as u32
}

/// The distinct colours of the first `n` pixels.
pub open spec fn colors_before(rgba: Seq<u8>, n: int) -> Set<u32> {
    Set::new(|c: u32| exists|p: int| 0 <= p < n && #[trigger] packed_color(rgba, p) == c)
}

/// The number of distinct colours (alpha ignored) among the whole pixels of a frame.
pub fn distinct_color_count(rgba: &[u8]) -> (k: usize)
    ensures
        k == colors_before(rgba@, (rgba@.len() / 4) as int).len(),
{
    let n = rgba.len() / 4;
    proof {
        vstd::arithmetic::div_mod::lemma_fundamental_div_mod(rgba@.len() as int, 4);
        vstd::arithmetic::div_mod::lemma_mod_pos_bound(rgba@.len() as int, 4);
    }
    let mut seen: std::collections::HashSet<u32> = std::collections::HashSet::new();
    let mut p: usize = 0;
    assert(colors_before(rgba@, 0) =~= Set::<u32>::empty());
    while p < n
        invariant
            n == rgba@.len() / 4,
            4 * n <= rgba@.len(),
            rgba@.len() <= usize::MAX,
            p <= n,
            seen@ == colors_before(rgba@, p as int),
        decreases n - p,
    {
        let c: u32 = (rgba[4 * p] as u32) * 65536 + (rgba[4 * p + 1] as u32) * 256 + (rgba[4 * p + 2] as u32);
        assert(c == packed_color(rgba@, p as int));
        seen.insert(c);
        assert(seen@ =~= colors_before(rgba@, p + 1)) by {
            assert forall|x: u32| colors_before(rgba@, p + 1).contains(x) implies seen@.contains(x) by {
                let q = choose|q: int| 0 <= q < p + 1 && #[trigger] packed_color(rgba@, q) == x;
                if q < p {
                    assert(colors_before(rgba@, p as int).contains(x));
                }
            }
            assert forall|x: u32| seen@.contains(x) implies colors_before(rgba@, p + 1).contains(x) by {
                if x != c {
                    assert(colors_before(rgba@, p as int).contains(x));
                    let q = choose|q: int| 0 <= q < p && #[trigger] packed_color(rgba@, q) == x;
                    assert(packed_color(rgba@, q) == x);
                }
                if x == c {
                    assert(packed_color(rgba@, p as int) == x);
                }
            }
        }
        p += 1;
    }
    seen.len()
}

} // verus!
