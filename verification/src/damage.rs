//! Damage rectangles in panel pixels and their bounding union.
use vstd::prelude::*;

verus! {

/// An axis-aligned rectangle of pixels: `w` columns from `x`, `h` rows from `y`.
#[derive(Clone, Copy, Debug, PartialEq, Eq, Structural)]
pub struct Rect {
    pub x: usize,
    pub y: usize,
    pub w: usize,
    pub h: usize,
}

pub open spec fn min_int(a: int, b: int) -> int {
    if a <= b { a } else { b }
}

pub open spec fn max_int(a: int, b: int) -> int {
    if a >= b { a } else { b }
}

impl Rect {
    /// The exclusive right edge.
    pub open spec fn right(self) -> int {
        self.x + self.w
    }

    /// The exclusive bottom edge.
    pub open spec fn bottom(self) -> int {
        self.y + self.h
    }

    /// Both far edges are representable as `usize`.
    pub open spec fn fits(self) -> bool {
        self.right() <= usize::MAX && self.bottom() <= usize::MAX
    }

    /// The rectangle covers no pixel.
    pub open spec fn is_empty(self) -> bool {
        self.w == 0 || self.h == 0
    }

    /// `self` lies entirely inside `outer`.
    pub open spec fn within(self, outer: Rect) -> bool {
        &&& outer.x <= self.x
        &&& outer.y <= self.y
        &&& self.right() <= outer.right()
        &&& self.bottom() <= outer.bottom()
    }

    /// The smallest rectangle holding both operands.
    pub open spec fn spec_union(self, other: Rect) -> Rect {
        let x = min_int(self.x as int, other.x as int);
        let y = min_int(self.y as int, other.y as int);
        Rect {
            x: x as usize,
            y: y as usize,
            w: (max_int(self.right(), other.right()) - x) as usize,
            h: (max_int(self.bottom(), other.bottom()) - y) as usize,
        }
    }

    /// The bounding rectangle of `self` and `other`.
    pub fn union(self, other: Rect) -> (r: Rect)
        requires
            self.fits(),
            other.fits(),
        ensures
            r == self.spec_union(other),
            r.fits(),
            self.within(r),
            other.within(r),
    {
        let x: usize = if self.x <= other.x { self.x } else { other.x };
        let y: usize = if self.y <= other.y { self.y } else { other.y };
        let right: usize = if self.x + self.w >= other.x + other.w {
            self.x + self.w
        } else {
            other.x + other.w
        };
        let bottom: usize = if self.y + self.h >= other.y + other.h {
            self.y + self.h
        } else {
            other.y + other.h
        };
        Rect { x, y, w: right - x, h: bottom - y }
    }
}

/// Every rectangle of the sequence has representable far edges.
pub open spec fn all_fit(rects: Seq<Rect>) -> bool {
    forall|i: int| 0 <= i < rects.len() ==> (#[trigger] rects[i]).fits()
}

/// The bounding rectangle of the non-empty rectangles of `rects`, folded in
/// order, or `None` when none of them covers a pixel.
pub open spec fn spec_merge_all(rects: Seq<Rect>) -> Option<Rect>
    decreases rects.len(),
{
    if rects.len() == 0 {
        None
    } else {
        let prev = spec_merge_all(rects.drop_last());
        let last = rects.last();
        if last.is_empty() {
            prev
        } else {
            match prev {
                None => Some(last),
                Some(p) => Some(p.spec_union(last)),
            }
        }
    }
}

/// The merged rectangle fits, is non-empty, and holds every non-empty input;
/// it is `None` exactly when no input covers a pixel.
pub proof fn lemma_merge_all(rects: Seq<Rect>)
    requires
        all_fit(rects),
    ensures
        spec_merge_all(rects) is None <==> (forall|i: int|
            0 <= i < rects.len() ==> (#[trigger] rects[i]).is_empty()),
        spec_merge_all(rects) matches Some(m) ==> {
            &&& m.fits()
            &&& !m.is_empty()
            &&& forall|i: int|
                0 <= i < rects.len() && !(#[trigger] rects[i]).is_empty() ==> rects[i].within(m)
        },
    decreases rects.len(),
{
    if rects.len() > 0 {
        let init = rects.drop_last();
        assert forall|i: int| 0 <= i < init.len() implies (#[trigger] init[i]).fits() by {
            assert(init[i] == rects[i]);
        }
        lemma_merge_all(init);
        let last = rects.last();
        assert(rects[rects.len() - 1] == last);
        assert forall|i: int| 0 <= i < init.len() implies #[trigger] init[i] == rects[i] by {}
        match spec_merge_all(init) {
            None => {
                if last.is_empty() {
                    assert forall|i: int| 0 <= i < rects.len() implies (#[trigger] rects[i]).is_empty() by {
                        if i < init.len() {
                            assert(init[i].is_empty());
                        }
                    }
                } else {
                    assert forall|i: int|
                        0 <= i < rects.len() && !(#[trigger] rects[i]).is_empty() implies rects[i].within(last) by {
                        if i < init.len() {
                            assert(init[i].is_empty());
                        }
                    }
                }
            },
            Some(p) => {
                assert(!init[0].is_empty() || exists|i: int| 0 <= i < init.len() && !init[i].is_empty());
                if !last.is_empty() {
                    let u = p.spec_union(last);
                    lemma_union(p, last);
                    assert forall|i: int|
                        0 <= i < rects.len() && !(#[trigger] rects[i]).is_empty() implies rects[i].within(u) by {
                        if i < init.len() {
                            assert(init[i].within(p));
                        }
                    }
                } else {
                    assert forall|i: int|
                        0 <= i < rects.len() && !(#[trigger] rects[i]).is_empty() implies rects[i].within(p) by {
                        if i < init.len() {
                            assert(init[i].within(p));
                        }
                    }
                }
                let j = choose|j: int| 0 <= j < init.len() && !(#[trigger] init[j]).is_empty();
                assert(!rects[j].is_empty());
            },
        }
    }
}

/// The bounding union of two representable rectangles is representable,
/// holds both, and covers a pixel whenever either does.
pub proof fn lemma_union(a: Rect, b: Rect)
    requires
        a.fits(),
        b.fits(),
    ensures
        a.spec_union(b).fits(),
        a.within(a.spec_union(b)),
        b.within(a.spec_union(b)),
        !a.is_empty() || !b.is_empty() ==> !a.spec_union(b).is_empty(),
{
}

/// The union is the smallest rectangle holding both operands: any rectangle
/// that holds both holds their union.
pub proof fn law_union_is_smallest(a: Rect, b: Rect, c: Rect)
    requires
        a.within(c),
        b.within(c),
    ensures
        a.spec_union(b).within(c),
{
}

/// The merged damage is the smallest rectangle holding every non-empty
/// input: any rectangle that holds them all holds the merge.
pub proof fn law_merge_is_smallest(rects: Seq<Rect>, c: Rect)
    requires
        all_fit(rects),
        forall|i: int| 0 <= i < rects.len() && !(#[trigger] rects[i]).is_empty() ==> rects[i].within(c),
    ensures
        spec_merge_all(rects) matches Some(m) ==> m.within(c),
    decreases rects.len(),
{
    if rects.len() > 0 {
        let pre = rects.drop_last();
        assert forall|i: int| 0 <= i < pre.len() implies (#[trigger] pre[i]).fits() by {
            assert(pre[i] == rects[i]);
        }
        assert forall|i: int| 0 <= i < pre.len() && !(#[trigger] pre[i]).is_empty() implies pre[i].within(c) by {
            assert(pre[i] == rects[i]);
        }
        law_merge_is_smallest(pre, c);
        let last = rects.last();
        assert(rects[rects.len() - 1] == last);
        if let Some(p) = spec_merge_all(pre) {
            if !last.is_empty() {
                law_union_is_smallest(p, last, c);
            }
        }
    }
}

/// The bounding rectangle of the non-empty damage rectangles, or `None` when
/// nothing was damaged.
pub fn merge_all(rects: &[Rect]) -> (merged: Option<Rect>)
    requires
        all_fit(rects@),
    ensures
        merged == spec_merge_all(rects@),
{
    let mut merged: Option<Rect> = None;
    let mut i: usize = 0;
    while i < rects.len()
        invariant
            i <= rects.len(),
            all_fit(rects@),
            merged == spec_merge_all(rects@.subrange(0, i as int)),
        decreases rects.len() - i,
    {
        let r: Rect = rects[i];
        proof {
            let pre = rects@.subrange(0, i as int);
            let next = rects@.subrange(0, i as int + 1);
            assert(next.drop_last() =~= pre);
            assert(next.last() == r);
            assert forall|j: int| 0 <= j < pre.len() implies (#[trigger] pre[j]).fits() by {
                assert(pre[j] == rects@[j]);
            }
            lemma_merge_all(pre);
            assert(rects@[i as int].fits());
        }
        if r.w != 0 && r.h != 0 {
            merged = match merged {
                None => Some(r),
                Some(p) => Some(p.union(r)),
            };
        }
        i = i + 1;
    }
    assert(rects@.subrange(0, rects@.len() as int) =~= rects@);
    merged
}


// ---------------------------------------------------------------------------
// The region two frames differ in.

/// The pixel at column `x`, row `y` of two row-major frames `width` pixels
/// wide differs between them.
pub open spec fn differs(previous: Seq<u8>, current: Seq<u8>, width: int, x: int, y: int) -> bool {
    previous[y * width + x] != current[y * width + x]
}

/// Every pixel of the frame that differs lies inside `b`.
pub open spec fn covers_changes(
    previous: Seq<u8>,
    current: Seq<u8>,
    width: int,
    height: int,
    b: Rect,
) -> bool {
    forall|x: int, y: int|
        0 <= x < width && 0 <= y < height && #[trigger] differs(previous, current, width, x, y)
            ==> b.x <= x < b.right() && b.y <= y < b.bottom()
}

/// Each edge of `b` runs through a pixel that differs, so no smaller
/// rectangle covers the changes.
pub open spec fn touches_changes(
    previous: Seq<u8>,
    current: Seq<u8>,
    width: int,
    height: int,
    b: Rect,
) -> bool {
    &&& exists|y: int| 0 <= y < height && #[trigger] differs(previous, current, width, b.x as int, y)
    &&& exists|y: int|
        0 <= y < height && #[trigger] differs(previous, current, width, b.right() - 1, y)
    &&& exists|x: int| 0 <= x < width && #[trigger] differs(previous, current, width, x, b.y as int)
    &&& exists|x: int|
        0 <= x < width && #[trigger] differs(previous, current, width, x, b.bottom() - 1)
}

proof fn lemma_pixel_index(x: int, y: int, width: int, height: int)
    requires
        0 <= x < width,
        0 <= y < height,
    ensures
        0 <= y * width + x < height * width,
{
    assert(0 <= y * width + x < height * width) by (nonlinear_arith)
        requires
            0 <= x < width,
            0 <= y < height,
    ;
}

/// The smallest rectangle holding every pixel at which two frames of
/// `width` by `height` pixels differ, or `None` when they are the same.
pub fn changed_bounds(previous: &[u8], current: &[u8], width: usize, height: usize) -> (r: Option<
    Rect,
>)
    requires
        previous@.len() == width * height,
        current@.len() == width * height,
    ensures
        r is None <==> forall|x: int, y: int|
            0 <= x < width && 0 <= y < height ==> !#[trigger] differs(
                previous@,
                current@,
                width as int,
                x,
                y,
            ),
        r matches Some(b) ==> {
            &&& !b.is_empty()
            &&& b.right() <= width
            &&& b.bottom() <= height
            &&& covers_changes(previous@, current@, width as int, height as int, b)
            &&& touches_changes(previous@, current@, width as int, height as int, b)
        },
{
    let ghost p = previous@;
    let ghost c = current@;
    let ghost w = width as int;
    let ghost h = height as int;
    let n: usize = previous.len();
    assert(n == w * h);
    let mut found = false;
    let mut x0: usize = 0;
    let mut x1: usize = 0;
    let mut y0: usize = 0;
    let mut y1: usize = 0;
    // A changed pixel on each edge found so far: the rows of the ones in
    // columns x0 and x1, the columns of the ones in rows y0 and y1.
    let ghost mut row_at_x0: int = 0;
    let ghost mut row_at_x1: int = 0;
    let ghost mut col_at_y0: int = 0;
    let ghost mut col_at_y1: int = 0;
    let mut y: usize = 0;
    while y < height
        invariant
            y <= height,
            p == previous@,
            c == current@,
            w == width,
            h == height,
            p.len() == w * h,
            c.len() == w * h,
            w * h <= usize::MAX,
            found ==> {
                &&& x0 <= x1 < width
                &&& y0 <= y1 < y
                &&& 0 <= row_at_x0 < h && differs(p, c, w, x0 as int, row_at_x0)
                &&& 0 <= row_at_x1 < h && differs(p, c, w, x1 as int, row_at_x1)
                &&& 0 <= col_at_y0 < w && differs(p, c, w, col_at_y0, y0 as int)
                &&& 0 <= col_at_y1 < w && differs(p, c, w, col_at_y1, y1 as int)
            },
            forall|xx: int, yy: int|
                0 <= xx < w && 0 <= yy < y && #[trigger] differs(p, c, w, xx, yy) ==> found && x0
                    <= xx <= x1 && y0 <= yy <= y1,
        decreases height - y,
    {
        let mut x: usize = 0;
        while x < width
            invariant
                x <= width,
                y < height,
                p == previous@,
                c == current@,
                w == width,
                h == height,
                p.len() == w * h,
                c.len() == w * h,
                w * h <= usize::MAX,
                found ==> {
                    &&& x0 <= x1 < width
                    &&& y0 <= y1 <= y
                    &&& 0 <= row_at_x0 < h && differs(p, c, w, x0 as int, row_at_x0)
                    &&& 0 <= row_at_x1 < h && differs(p, c, w, x1 as int, row_at_x1)
                    &&& 0 <= col_at_y0 < w && differs(p, c, w, col_at_y0, y0 as int)
                    &&& 0 <= col_at_y1 < w && differs(p, c, w, col_at_y1, y1 as int)
                },
                forall|xx: int, yy: int|
                    0 <= xx < w && 0 <= yy < y && #[trigger] differs(p, c, w, xx, yy) ==> found
                        && x0 <= xx <= x1 && y0 <= yy <= y1,
                forall|xx: int|
                    0 <= xx < x && #[trigger] differs(p, c, w, xx, y as int) ==> found && x0 <= xx
                        <= x1 && y0 <= y <= y1,
            decreases width - x,
        {
            proof {
                lemma_pixel_index(x as int, y as int, w, h);
            }
            let i: usize = y * width + x;
            if previous[i] != current[i] {
                assert(differs(p, c, w, x as int, y as int));
                if !found {
                    found = true;
                    x0 = x;
                    x1 = x;
                    y0 = y;
                    y1 = y;
                    proof {
                        row_at_x0 = y as int;
                        row_at_x1 = y as int;
                        col_at_y0 = x as int;
                        col_at_y1 = x as int;
                    }
                } else {
                    if x < x0 {
                        x0 = x;
                        proof {
                            row_at_x0 = y as int;
                        }
                    }
                    if x > x1 {
                        x1 = x;
                        proof {
                            row_at_x1 = y as int;
                        }
                    }
                    if y > y1 {
                        y1 = y;
                        proof {
                            col_at_y1 = x as int;
                        }
                    }
                }
            }
            x = x + 1;
        }
        y = y + 1;
    }
    if !found {
        return None;
    }
    let b = Rect { x: x0, y: y0, w: x1 - x0 + 1, h: y1 - y0 + 1 };
    assert(differs(p, c, w, b.x as int, row_at_x0));
    assert(differs(p, c, w, b.right() - 1, row_at_x1));
    assert(differs(p, c, w, col_at_y0, b.y as int));
    assert(differs(p, c, w, col_at_y1, b.bottom() - 1));
    Some(b)
}

} // verus!
