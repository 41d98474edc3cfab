//! The description of a packed puzzle as the game loads it, and the measures
//! that the game takes of it.
use vstd::prelude::*;

verus! {

/// A packed puzzle: the puzzle size, the atlas size, and for every piece its
/// place in the atlas (x, y), its destination in the puzzle (x, y) and the
/// size of its bitmap (w, h).
pub struct PuzzleInfo {
    pub puzzle_width: u32,
    pub puzzle_height: u32,
    pub atlas_width: u32,
    pub atlas_height: u32,
    pub images: Vec<(u32, u32, u32, u32, u32, u32)>,
}

pub open spec fn min_int(a: int, b: int) -> int {
    if a <= b {
        a
    } else {
        b
    }
}

pub open spec fn max_int(a: int, b: int) -> int {
    if a >= b {
        a
    } else {
        b
    }
}

/// The smallest and largest destination x and y of the first `k` pieces, as
/// (left, bottom, right, top); with no piece, (u32::MAX, u32::MAX, 0, 0).
pub open spec fn bounds_at(images: Seq<(u32, u32, u32, u32, u32, u32)>, k: nat) -> (int, int, int, int)
    decreases k,
{
    if k == 0 {
        (u32::MAX as int, u32::MAX as int, 0, 0)
    } else {
        let b = bounds_at(images, (k - 1) as nat);
        let im = images[k - 1];
        (
            min_int(b.0, im.2 as int),
            min_int(b.1, im.3 as int),
            max_int(b.2, im.2 as int),
            max_int(b.3, im.3 as int),
        )
    }
}

/// The largest bitmap width and height among the first `k` pieces (zero with
/// no piece).
pub open spec fn max_area_at(images: Seq<(u32, u32, u32, u32, u32, u32)>, k: nat) -> (int, int)
    decreases k,
{
    if k == 0 {
        (0, 0)
    } else {
        let a = max_area_at(images, (k - 1) as nat);
        let im = images[k - 1];
        (max_int(a.0, im.4 as int), max_int(a.1, im.5 as int))
    }
}

proof fn lemma_bounds_cover(images: Seq<(u32, u32, u32, u32, u32, u32)>, k: nat)
    requires
        k <= images.len(),
    ensures
        0 <= bounds_at(images, k).0 <= u32::MAX,
        0 <= bounds_at(images, k).1 <= u32::MAX,
        0 <= bounds_at(images, k).2 <= u32::MAX,
        0 <= bounds_at(images, k).3 <= u32::MAX,
        0 <= max_area_at(images, k).0 <= u32::MAX,
        0 <= max_area_at(images, k).1 <= u32::MAX,
        forall|i: int|
            0 <= i < k ==> {
                &&& bounds_at(images, k).0 <= (#[trigger] images[i]).2 <= bounds_at(images, k).2
                &&& bounds_at(images, k).1 <= images[i].3 <= bounds_at(images, k).3
                &&& images[i].4 <= max_area_at(images, k).0
                &&& images[i].5 <= max_area_at(images, k).1
            },
    decreases k,
{
    if k > 0 {
        lemma_bounds_cover(images, (k - 1) as nat);
    }
}

impl PuzzleInfo {
    /// The destinations of the outermost pieces, as (left, bottom, right,
    /// top): the smallest and largest destination x and y of any piece.
    pub fn get_bounds(&self) -> (r: (u32, u32, u32, u32))
        ensures
            r.0 == bounds_at(self.images@, self.images@.len()).0,
            r.1 == bounds_at(self.images@, self.images@.len()).1,
            r.2 == bounds_at(self.images@, self.images@.len()).2,
            r.3 == bounds_at(self.images@, self.images@.len()).3,
            forall|i: int|
                0 <= i < self.images@.len() ==> r.0 <= (#[trigger] self.images@[i]).2 <= r.2
                    && r.1 <= self.images@[i].3 <= r.3,
    {
        let n = self.images.len();
        let mut left: u32 = u32::MAX;
        let mut bottom: u32 = u32::MAX;
        let mut right: u32 = 0;
        let mut top: u32 = 0;
        let mut i: usize = 0;
        while i < n
            invariant
                n == self.images@.len(),
                i <= n,
                left == bounds_at(self.images@, i as nat).0,
                bottom == bounds_at(self.images@, i as nat).1,
                right == bounds_at(self.images@, i as nat).2,
                top == bounds_at(self.images@, i as nat).3,
            decreases n - i,
        {
            let piece_x = self.images[i].2;
            let piece_y = self.images[i].3;
            if piece_x < left {
                left = piece_x;
            }
            if piece_y < bottom {
                bottom = piece_y;
            }
            if piece_x > right {
                right = piece_x;
            }
            if piece_y > top {
                top = piece_y;
            }
            i = i + 1;
        }
        proof {
            lemma_bounds_cover(self.images@, n as nat);
        }
        (left, bottom, right, top)
    }

    /// The largest bitmap width and the largest bitmap height of any piece.
    pub fn get_max_piece_area(&self) -> (r: (u32, u32))
        ensures
            r.0 == max_area_at(self.images@, self.images@.len()).0,
            r.1 == max_area_at(self.images@, self.images@.len()).1,
            forall|i: int|
                0 <= i < self.images@.len() ==> (#[trigger] self.images@[i]).4 <= r.0
                    && self.images@[i].5 <= r.1,
    {
        let n = self.images.len();
        let mut width: u32 = 0;
        let mut height: u32 = 0;
        let mut i: usize = 0;
        while i < n
            invariant
                n == self.images@.len(),
                i <= n,
                width == max_area_at(self.images@, i as nat).0,
                height == max_area_at(self.images@, i as nat).1,
            decreases n - i,
        {
            let piece_w = self.images[i].4;
            let piece_h = self.images[i].5;
            if piece_w > width {
                width = piece_w;
            }
            if piece_h > height {
                height = piece_h;
            }
            i = i + 1;
        }
        proof {
            lemma_bounds_cover(self.images@, n as nat);
        }
        (width, height)
    }
}

} // verus!
