//! Preparing the puzzle's pieces: the size of the finished puzzle, the flip of
//! the destination coordinates to a bottom-left origin, and the packing of all
//! piece bitmaps into one texture atlas.
use vstd::prelude::*;

verus! {

/// One piece bitmap: its id, where its top-left corner belongs in the finished
/// puzzle, and the size of the bitmap.
pub struct ImageInfo {
    pub id: String,
    pub dest_x: u32,
    pub dest_y: u32,
    pub width: u32,
    pub height: u32,
}

impl ImageInfo {
    /// The width of the piece bitmap.
    pub fn _width(&self) -> (r: u32)
        ensures
            r == self.width,
    {
        self.width
    }

    /// The height of the piece bitmap.
    pub fn height(&self) -> (r: u32)
        ensures
            r == self.height,
    {
        self.height
    }
}

/// All pieces of a puzzle, with the size of the finished puzzle.
pub struct Info {
    pub images: Vec<ImageInfo>,
    pub puzzle_width: u32,
    pub puzzle_height: u32,
}

pub open spec fn max_int(a: int, b: int) -> int {
    if a >= b {
        a
    } else {
        b
    }
}

/// The right and bottom edge reached by the first `k` pieces, measured from a
/// top-left origin (zero when there is no piece).
pub open spec fn extent_at(images: Seq<ImageInfo>, k: nat) -> (int, int)
    decreases k,
{
    if k == 0 {
        (0, 0)
    } else {
        let prev = extent_at(images, (k - 1) as nat);
        let im = images[k - 1];
        (max_int(prev.0, im.dest_x + im.width), max_int(prev.1, im.dest_y + im.height))
    }
}

/// The size of the finished puzzle: the furthest right and bottom edge of any piece.
pub open spec fn puzzle_extent(images: Seq<ImageInfo>) -> (int, int) {
    extent_at(images, images.len())
}

/// Every piece's right and bottom edge can be computed in `u32`.
pub open spec fn edges_fit(images: Seq<ImageInfo>) -> bool {
    forall|i: int|
        0 <= i < images.len() ==> #[trigger] images[i].dest_x + images[i].width <= u32::MAX
            && images[i].dest_y + images[i].height <= u32::MAX
}

proof fn lemma_extent_bounds(images: Seq<ImageInfo>, k: nat)
    requires
        k <= images.len(),
    ensures
        0 <= extent_at(images, k).0,
        0 <= extent_at(images, k).1,
        forall|i: int|
            0 <= i < k ==> (#[trigger] images[i]).dest_x + images[i].width <= extent_at(images, k).0
                && images[i].dest_y + images[i].height <= extent_at(images, k).1,
    decreases k,
{
    if k > 0 {
        lemma_extent_bounds(images, (k - 1) as nat);
    }
}

/// Whether every piece's right and bottom edge can be computed in `u32`.
pub fn edges_fit_u32(images: &Vec<ImageInfo>) -> (r: bool)
    ensures
        r == edges_fit(images@),
{
    let n = images.len();
    let mut i: usize = 0;
    while i < n
        invariant
            n == images@.len(),
            i <= n,
            forall|j: int|
                0 <= j < i ==> #[trigger] images@[j].dest_x + images@[j].width <= u32::MAX
                    && images@[j].dest_y + images@[j].height <= u32::MAX,
        decreases n - i,
    {
        let im = &images[i];
        if im.dest_x as u64 + im.width as u64 > u32::MAX as u64 || im.dest_y as u64
            + im.height as u64 > u32::MAX as u64 {
            return false;
        }
        i = i + 1;
    }
    true
}

impl Info {
    /// Builds the puzzle description from the pieces as they were read, with
    /// destinations measured from the top-left corner: the puzzle is as large
    /// as the furthest piece edges, and each destination is turned into one
    /// measured from the bottom-left corner, anchored at the piece's bottom-left.
    pub fn from_images(images: Vec<ImageInfo>) -> (info: Info)
        requires
            edges_fit(images@),
        ensures
            info.puzzle_width == puzzle_extent(images@).0,
            info.puzzle_height == puzzle_extent(images@).1,
            info.images@.len() == images@.len(),
            forall|i: int|
                0 <= i < images@.len() ==> {
                    &&& (#[trigger] info.images@[i]).id == images@[i].id
                    &&& info.images@[i].dest_x == images@[i].dest_x
                    &&& info.images@[i].width == images@[i].width
                    &&& info.images@[i].height == images@[i].height
                    &&& info.images@[i].dest_y == info.puzzle_height - (images@[i].dest_y
                        + images@[i].height)
                },
            // every piece lies inside the finished puzzle
            forall|i: int|
                0 <= i < info.images@.len() ==> #[trigger] info.images@[i].dest_x
                    + info.images@[i].width <= info.puzzle_width && info.images@[i].dest_y
                    + info.images@[i].height <= info.puzzle_height,
    {
        let n = images.len();
        let mut puzzle_width: u32 = 0;
        let mut puzzle_height: u32 = 0;
        let mut i: usize = 0;
        while i < n
            invariant
                n == images@.len(),
                i <= n,
                edges_fit(images@),
                puzzle_width == extent_at(images@, i as nat).0,
                puzzle_height == extent_at(images@, i as nat).1,
            decreases n - i,
        {
            let image = &images[i];
            assert(image.dest_x + image.width <= u32::MAX);
            let right = image.dest_x + image.width;
            let bottom = image.dest_y + image.height;
            if right > puzzle_width {
                puzzle_width = right;
            }
            if bottom > puzzle_height {
                puzzle_height = bottom;
            }
            i = i + 1;
        }
        proof {
            lemma_extent_bounds(images@, n as nat);
        }
        let ghost orig = images@;
        let mut rest = images;
        let mut out: Vec<ImageInfo> = Vec::new();
        let mut j: usize = 0;
        while j < n
            invariant
                n == orig.len(),
                j <= n,
                rest@ == orig.skip(j as int),
                out@.len() == j,
                puzzle_height == puzzle_extent(orig).1,
                forall|i: int| 0 <= i < n ==> (#[trigger] orig[i]).dest_y + orig[i].height <= puzzle_height,
                forall|i: int|
                    0 <= i < j ==> {
                        &&& (#[trigger] out@[i]).id == orig[i].id
                        &&& out@[i].dest_x == orig[i].dest_x
                        &&& out@[i].width == orig[i].width
                        &&& out@[i].height == orig[i].height
                        &&& out@[i].dest_y == puzzle_height - (orig[i].dest_y + orig[i].height)
                    },
            decreases n - j,
        {
            assert(rest@[0] == orig[j as int]);
            let image = rest.remove(0);
            assert(rest@ =~= orig.skip(j + 1));
            let dest_y = puzzle_height - (image.dest_y + image.height);
            out.push(
                ImageInfo {
                    id: image.id,
                    dest_x: image.dest_x,
                    dest_y,
                    width: image.width,
                    height: image.height,
                },
            );
            j = j + 1;
        }
        Info { images: out, puzzle_width, puzzle_height }
    }
}

/// A piece as listed in the puzzle's piece list: its id, the number that the
/// id spells, and where its top-left corner belongs in the finished puzzle.
pub struct PieceEntry {
    pub id: String,
    pub key: u32,
    pub dest_x: u32,
    pub dest_y: u32,
}

/// The entries are in ascending order of their keys.
pub open spec fn sorted_by_key(s: Seq<PieceEntry>) -> bool {
    forall|a: int, b: int| 0 <= a < b < s.len() ==> #[trigger] s[a].key <= #[trigger] s[b].key
}

/// How many entries are kept out of `len` with an optional `limit`.
pub open spec fn kept_count(len: nat, limit: Option<usize>) -> nat {
    match limit {
        Some(l) => if l < len {
            l as nat
        } else {
            len
        },
        None => len,
    }
}

/// Orders the listed pieces by the number that their id spells and keeps the
/// first `limit` of them (all of them when there is no limit).
pub fn order_entries(entries: Vec<PieceEntry>, limit: Option<usize>) -> (r: Vec<PieceEntry>)
    ensures
        r@.len() == kept_count(entries@.len(), limit),
        sorted_by_key(r@),
        exists|all: Seq<PieceEntry>|
            #![trigger all.to_multiset()]
            all.to_multiset() == entries@.to_multiset() && sorted_by_key(all) && r@ == all.take(
                r@.len() as int,
            ),
{
    broadcast use vstd::seq_lib::group_to_multiset_ensures;

    let ghost orig = entries@;
    let n = entries.len();
    let mut rest = entries;
    let mut sorted: Vec<PieceEntry> = Vec::new();
    let mut i: usize = 0;
    assert(orig.take(0) =~= Seq::<PieceEntry>::empty());
    while i < n
        invariant
            n == orig.len(),
            i <= n,
            rest@ == orig.skip(i as int),
            sorted_by_key(sorted@),
            sorted@.to_multiset() == orig.take(i as int).to_multiset(),
        decreases n - i,
    {
        assert(rest@[0] == orig[i as int]);
        let e = rest.remove(0);
        assert(rest@ =~= orig.skip(i + 1));
        let key = e.key;
        let mut pos: usize = 0;
        while pos < sorted.len() && sorted[pos].key <= key
            invariant
                pos <= sorted@.len(),
                forall|q: int| 0 <= q < pos ==> #[trigger] sorted@[q].key <= key,
            decreases sorted@.len() - pos,
        {
            pos = pos + 1;
        }
        let ghost before = sorted@;
        sorted.insert(pos, e);
        assert forall|a: int, b: int| 0 <= a < b < sorted@.len() implies #[trigger] sorted@[a].key
            <= #[trigger] sorted@[b].key by {
            if b == pos {
                assert(sorted@[a] == before[a]);
            } else if a == pos {
                assert(sorted@[b] == before[b - 1]);
                assert(before[pos as int].key > key);
                if b - 1 > pos {
                    assert(before[pos as int].key <= before[b - 1].key);
                }
            } else {
                let a0 = if a < pos {
                    a
                } else {
                    a - 1
                };
                let b0 = if b < pos {
                    b
                } else {
                    b - 1
                };
                assert(sorted@[a] == before[a0]);
                assert(sorted@[b] == before[b0]);
                assert(before[a0].key <= before[b0].key);
            }
        }
        assert(orig.take(i + 1) =~= orig.take(i as int).push(orig[i as int]));
        assert(sorted@ == before.insert(pos as int, orig[i as int]));
        proof {
            vstd::seq_lib::to_multiset_insert(before, pos as int, orig[i as int]);
            vstd::seq_lib::to_multiset_build(orig.take(i as int), orig[i as int]);
        }
        assert(sorted@.to_multiset() == before.to_multiset().insert(orig[i as int]));
        assert(orig.take(i + 1).to_multiset() == orig.take(i as int).to_multiset().insert(
            orig[i as int],
        ));
        i = i + 1;
    }
    assert(orig.take(n as int) =~= orig);
    let ghost all = sorted@;
    assert(all.len() == all.to_multiset().len());
    assert(orig.len() == orig.to_multiset().len());
    let count: usize = match limit {
        Some(l) => if l < n {
            l
        } else {
            n
        },
        None => n,
    };
    sorted.truncate(count);
    assert(sorted@ =~= all.take(count as int));
    assert(all.to_multiset() == orig.to_multiset());
    sorted
}

/// The packing of the atlas after some pieces: the cursor (`x` is the right
/// edge of the last piece placed, `y` the top of the current row), the
/// tallest piece of the current row, and the atlas size reached so far.
pub struct LayoutState {
    pub x: int,
    pub y: int,
    pub largest: int,
    pub width: int,
    pub height: int,
}

/// The packing before any piece: the first row starts one padding down.
pub open spec fn layout_start(pad: u32) -> LayoutState {
    LayoutState { x: 0, y: pad as int, largest: 0, width: 0, height: 0 }
}

/// A piece of width `w` does not fit in the current row (the rows are limited
/// to the width of the finished puzzle), so it starts a new row.
pub open spec fn wraps(s: LayoutState, w: int, puzzle_width: u32, pad: u32) -> bool {
    s.x + pad + w + pad >= puzzle_width
}

/// Where the next piece of width `w` goes in the atlas (its top-left corner).
pub open spec fn placement(s: LayoutState, w: int, puzzle_width: u32, pad: u32) -> (int, int) {
    if wraps(s, w, puzzle_width, pad) {
        (pad as int, s.y + s.largest + pad)
    } else {
        (s.x + pad, s.y)
    }
}

/// The packing after placing a piece of size `w` by `h`.
pub open spec fn layout_step(s: LayoutState, w: int, h: int, puzzle_width: u32, pad: u32) -> LayoutState {
    let p = placement(s, w, puzzle_width, pad);
    let largest = if wraps(s, w, puzzle_width, pad) {
        0
    } else {
        s.largest
    };
    LayoutState {
        x: p.0 + w,
        y: p.1,
        largest: max_int(largest, h),
        width: max_int(s.width, p.0 + w + pad),
        height: max_int(s.height, p.1 + h + pad),
    }
}

/// The packing after the first `k` pieces.
pub open spec fn layout_state_at(images: Seq<ImageInfo>, puzzle_width: u32, pad: u32, k: nat) -> LayoutState
    decreases k,
{
    if k == 0 {
        layout_start(pad)
    } else {
        let prev = layout_state_at(images, puzzle_width, pad, (k - 1) as nat);
        layout_step(prev, images[k - 1].width as int, images[k - 1].height as int, puzzle_width, pad)
    }
}

/// Where piece `k` is placed in the atlas (its top-left corner).
pub open spec fn placement_at(images: Seq<ImageInfo>, puzzle_width: u32, pad: u32, k: int) -> (int, int) {
    placement(
        layout_state_at(images, puzzle_width, pad, k as nat),
        images[k].width as int,
        puzzle_width,
        pad,
    )
}

/// The size of the whole atlas.
pub open spec fn atlas_size(images: Seq<ImageInfo>, puzzle_width: u32, pad: u32) -> (int, int) {
    let s = layout_state_at(images, puzzle_width, pad, images.len());
    (s.width, s.height)
}

/// Placing a piece of size `w` by `h` computes nothing beyond `u32`.
pub open spec fn step_fits(s: LayoutState, w: int, h: int, puzzle_width: u32, pad: u32) -> bool {
    &&& s.x + pad + w + pad <= u32::MAX
    &&& (wraps(s, w, puzzle_width, pad) ==> s.y + s.largest + pad <= u32::MAX)
    &&& placement(s, w, puzzle_width, pad).1 + h + pad <= u32::MAX
}

/// Packing all pieces computes nothing beyond `u32`.
pub open spec fn layout_fits(images: Seq<ImageInfo>, puzzle_width: u32, pad: u32) -> bool {
    forall|k: nat|
        k < images.len() ==> #[trigger] step_fits(
            layout_state_at(images, puzzle_width, pad, k),
            images[k as int].width as int,
            images[k as int].height as int,
            puzzle_width,
            pad,
        )
}

/// The packed atlas: the puzzle size, the atlas size, and for every piece its
/// place in the atlas (x, y), its destination in the puzzle (x, y) and the
/// size of its bitmap (w, h).
pub struct Puzzle {
    pub puzzle_width: u32,
    pub puzzle_height: u32,
    pub atlas_width: u32,
    pub atlas_height: u32,
    pub images: Vec<(u32, u32, u32, u32, u32, u32)>,
}

proof fn lemma_state_nonneg(images: Seq<ImageInfo>, puzzle_width: u32, pad: u32, k: nat)
    requires
        k <= images.len(),
    ensures
        layout_state_at(images, puzzle_width, pad, k).x >= 0,
        layout_state_at(images, puzzle_width, pad, k).y >= pad,
        layout_state_at(images, puzzle_width, pad, k).largest >= 0,
        layout_state_at(images, puzzle_width, pad, k).width >= 0,
        layout_state_at(images, puzzle_width, pad, k).height >= 0,
    decreases k,
{
    if k > 0 {
        lemma_state_nonneg(images, puzzle_width, pad, (k - 1) as nat);
    }
}

proof fn lemma_atlas_grows(images: Seq<ImageInfo>, puzzle_width: u32, pad: u32, k1: nat, k2: nat)
    requires
        k1 <= k2 <= images.len(),
    ensures
        layout_state_at(images, puzzle_width, pad, k1).width <= layout_state_at(
            images,
            puzzle_width,
            pad,
            k2,
        ).width,
        layout_state_at(images, puzzle_width, pad, k1).height <= layout_state_at(
            images,
            puzzle_width,
            pad,
            k2,
        ).height,
    decreases k2,
{
    if k2 > k1 {
        lemma_atlas_grows(images, puzzle_width, pad, k1, (k2 - 1) as nat);
    }
}

/// After the first `k` pieces, each of them is either in the current row
/// (left of the cursor and no taller than the row) or in a row above it,
/// ending at least one padding above the current row.
proof fn lemma_rows(images: Seq<ImageInfo>, puzzle_width: u32, pad: u32, k: nat)
    requires
        k <= images.len(),
    ensures
        forall|i: int|
            0 <= i < k ==> {
                let p = #[trigger] placement_at(images, puzzle_width, pad, i);
                let s = layout_state_at(images, puzzle_width, pad, k);
                ||| (p.1 == s.y && p.0 + images[i].width <= s.x && images[i].height <= s.largest)
                ||| p.1 + images[i].height + pad <= s.y
            },
    decreases k,
{
    if k > 0 {
        let j = (k - 1) as nat;
        lemma_rows(images, puzzle_width, pad, j);
        lemma_state_nonneg(images, puzzle_width, pad, j);
        let s = layout_state_at(images, puzzle_width, pad, j);
        let t = layout_state_at(images, puzzle_width, pad, k);
        assert(t == layout_step(s, images[j as int].width as int, images[j as int].height as int, puzzle_width, pad));
        assert forall|i: int| 0 <= i < k implies {
            let p = #[trigger] placement_at(images, puzzle_width, pad, i);
            ||| (p.1 == t.y && p.0 + images[i].width <= t.x && images[i].height <= t.largest)
            ||| p.1 + images[i].height + pad <= t.y
        } by {
            if i < j {
                let p = placement_at(images, puzzle_width, pad, i);
                assert((p.1 == s.y && p.0 + images[i].width <= s.x && images[i].height <= s.largest)
                    || p.1 + images[i].height + pad <= s.y);
            }
        }
    }
}

/// Every piece lies inside the atlas, with at least one padding between the
/// piece and each edge of the atlas.
pub proof fn lemma_atlas_contains_pieces(images: Seq<ImageInfo>, puzzle_width: u32, pad: u32, i: int)
    requires
        0 <= i < images.len(),
    ensures
        pad <= placement_at(images, puzzle_width, pad, i).0,
        pad <= placement_at(images, puzzle_width, pad, i).1,
        placement_at(images, puzzle_width, pad, i).0 + images[i].width + pad <= atlas_size(
            images,
            puzzle_width,
            pad,
        ).0,
        placement_at(images, puzzle_width, pad, i).1 + images[i].height + pad <= atlas_size(
            images,
            puzzle_width,
            pad,
        ).1,
{
    lemma_state_nonneg(images, puzzle_width, pad, i as nat);
    lemma_atlas_grows(images, puzzle_width, pad, (i + 1) as nat, images.len());
    assert(layout_state_at(images, puzzle_width, pad, (i + 1) as nat) == layout_step(
        layout_state_at(images, puzzle_width, pad, i as nat),
        images[i].width as int,
        images[i].height as int,
        puzzle_width,
        pad,
    ));
}

/// No two pieces of the atlas overlap: a later piece starts at least one
/// padding to the right of an earlier one, or at least one padding below it.
pub proof fn lemma_atlas_pieces_apart(images: Seq<ImageInfo>, puzzle_width: u32, pad: u32, i: int, j: int)
    requires
        0 <= i < j < images.len(),
    ensures
        ({
            let a = placement_at(images, puzzle_width, pad, i);
            let b = placement_at(images, puzzle_width, pad, j);
            a.0 + images[i].width + pad <= b.0 || a.1 + images[i].height + pad <= b.1
        }),
{
    lemma_rows(images, puzzle_width, pad, j as nat);
    lemma_state_nonneg(images, puzzle_width, pad, j as nat);
    let a = placement_at(images, puzzle_width, pad, i);
    let s = layout_state_at(images, puzzle_width, pad, j as nat);
    assert((a.1 == s.y && a.0 + images[i].width <= s.x && images[i].height <= s.largest) || a.1
        + images[i].height + pad <= s.y);
}

/// The tracked row height after the first `k` pieces is the height of the
/// tallest piece in the current row (the pieces placed at the row's top), or
/// zero when the row is still empty.
proof fn lemma_row_height(images: Seq<ImageInfo>, puzzle_width: u32, pad: u32, k: nat)
    requires
        k <= images.len(),
    ensures
        ({
            let s = layout_state_at(images, puzzle_width, pad, k);
            &&& forall|i: int|
                0 <= i < k && (#[trigger] placement_at(images, puzzle_width, pad, i)).1 == s.y
                    ==> images[i].height <= s.largest
            &&& (s.largest == 0 || exists|i: int|
                0 <= i < k && (#[trigger] placement_at(images, puzzle_width, pad, i)).1 == s.y
                    && images[i].height == s.largest)
        }),
    decreases k,
{
    if k > 0 {
        let j = (k - 1) as nat;
        lemma_row_height(images, puzzle_width, pad, j);
        lemma_rows(images, puzzle_width, pad, j);
        lemma_state_nonneg(images, puzzle_width, pad, j);
        let s = layout_state_at(images, puzzle_width, pad, j);
        let t = layout_state_at(images, puzzle_width, pad, k);
        let w = images[j as int].width as int;
        let h = images[j as int].height as int;
        assert(t == layout_step(s, w, h, puzzle_width, pad));
        let pk = placement_at(images, puzzle_width, pad, j as int);
        assert(pk == placement(s, w, puzzle_width, pad));
        assert(pk.1 == t.y);
        assert forall|i: int|
            0 <= i < k && (#[trigger] placement_at(images, puzzle_width, pad, i)).1 == t.y implies images[i].height
            <= t.largest by {
            if i < j {
                let p = placement_at(images, puzzle_width, pad, i);
                assert((p.1 == s.y && p.0 + images[i].width <= s.x && images[i].height <= s.largest)
                    || p.1 + images[i].height + pad <= s.y);
            }
        }
        if t.largest != 0 {
            if wraps(s, w, puzzle_width, pad) || h >= s.largest {
                assert(images[j as int].height == t.largest);
            } else {
                let i = choose|i: int|
                    0 <= i < j && (#[trigger] placement_at(images, puzzle_width, pad, i)).1 == s.y
                        && images[i].height == s.largest;
                assert(placement_at(images, puzzle_width, pad, i).1 == t.y);
            }
        }
    }
}

/// A piece that starts a new row is placed one padding below the tallest
/// piece of the row that just ended (the pieces placed at that row's top),
/// or one padding below that row's top when all of them are empty; pieces of
/// earlier, taller rows play no part.
pub proof fn lemma_new_row_below_tallest(images: Seq<ImageInfo>, puzzle_width: u32, pad: u32, k: int)
    requires
        0 < k < images.len(),
        wraps(
            layout_state_at(images, puzzle_width, pad, k as nat),
            images[k].width as int,
            puzzle_width,
            pad,
        ),
    ensures
        ({
            let y0 = placement_at(images, puzzle_width, pad, k - 1).1;
            let y1 = placement_at(images, puzzle_width, pad, k).1;
            &&& placement_at(images, puzzle_width, pad, k).0 == pad
            &&& forall|j: int|
                0 <= j < k && (#[trigger] placement_at(images, puzzle_width, pad, j)).1 == y0
                    ==> y0 + images[j].height + pad <= y1
            &&& (y1 == y0 + pad || exists|j: int|
                0 <= j < k && (#[trigger] placement_at(images, puzzle_width, pad, j)).1 == y0
                    && y1 == y0 + images[j].height + pad)
        }),
{
    let kk = k as nat;
    let j = (k - 1) as nat;
    lemma_row_height(images, puzzle_width, pad, kk);
    let s = layout_state_at(images, puzzle_width, pad, j);
    let t = layout_state_at(images, puzzle_width, pad, kk);
    assert(t == layout_step(s, images[j as int].width as int, images[j as int].height as int, puzzle_width, pad));
    assert(placement_at(images, puzzle_width, pad, k - 1).1 == t.y);
}

impl Puzzle {
    /// Whether packing the pieces of `info` with `padding` computes nothing
    /// beyond `u32`.
    pub fn layout_fits_u32(info: &Info, padding: u32) -> (r: bool)
        ensures
            r == layout_fits(info.images@, info.puzzle_width, padding),
    {
        let ghost imgs = info.images@;
        let pw = info.puzzle_width as u64;
        let pad = padding as u64;
        let max = u32::MAX as u64;
        let n = info.images.len();
        let mut x: u64 = 0;
        let mut y: u64 = pad;
        let mut largest: u64 = 0;
        let mut width: u64 = 0;
        let mut height: u64 = 0;
        let mut i: usize = 0;
        while i < n
            invariant
                imgs == info.images@,
                n == imgs.len(),
                pw == info.puzzle_width,
                pad == padding,
                max == u32::MAX,
                i <= n,
                x <= max,
                y <= max,
                largest <= max,
                width <= max,
                height <= max,
                x == layout_state_at(imgs, info.puzzle_width, padding, i as nat).x,
                y == layout_state_at(imgs, info.puzzle_width, padding, i as nat).y,
                largest == layout_state_at(imgs, info.puzzle_width, padding, i as nat).largest,
                width == layout_state_at(imgs, info.puzzle_width, padding, i as nat).width,
                height == layout_state_at(imgs, info.puzzle_width, padding, i as nat).height,
                forall|k: nat|
                    k < i ==> #[trigger] step_fits(
                        layout_state_at(imgs, info.puzzle_width, padding, k),
                        imgs[k as int].width as int,
                        imgs[k as int].height as int,
                        info.puzzle_width,
                        padding,
                    ),
            decreases n - i,
        {
            let w = info.images[i].width as u64;
            let h = info.images[i].height as u64;
            let reach = x + pad + w + pad;
            if reach > max {
                proof {
                    assert(!step_fits(
                        layout_state_at(imgs, info.puzzle_width, padding, i as nat),
                        imgs[(i as nat) as int].width as int,
                        imgs[(i as nat) as int].height as int,
                        info.puzzle_width,
                        padding,
                    ));
                }
                return false;
            }
            let mut px = x + pad;
            let mut py = y;
            let mut row_largest = largest;
            if reach >= pw {
                if y + largest + pad > max {
                    proof {
                        assert(!step_fits(
                            layout_state_at(imgs, info.puzzle_width, padding, i as nat),
                            imgs[(i as nat) as int].width as int,
                            imgs[(i as nat) as int].height as int,
                            info.puzzle_width,
                            padding,
                        ));
                    }
                    return false;
                }
                px = pad;
                py = y + largest + pad;
                row_largest = 0;
            }
            if py + h + pad > max {
                proof {
                    assert(!step_fits(
                        layout_state_at(imgs, info.puzzle_width, padding, i as nat),
                        imgs[(i as nat) as int].width as int,
                        imgs[(i as nat) as int].height as int,
                        info.puzzle_width,
                        padding,
                    ));
                }
                return false;
            }
            x = px + w;
            y = py;
            largest = if h > row_largest {
                h
            } else {
                row_largest
            };
            if px + w + pad > width {
                width = px + w + pad;
            }
            if py + h + pad > height {
                height = py + h + pad;
            }
            i = i + 1;
        }
        true
    }

    /// Packs the pieces into an atlas, row by row in the order given, with
    /// `padding` pixels around every piece. A row ends where the next piece
    /// would reach the width of the finished puzzle; the next row starts below
    /// the tallest piece of the row before.
    pub fn from_info(info: &Info, padding: u32) -> (puzzle: Puzzle)
        requires
            layout_fits(info.images@, info.puzzle_width, padding),
        ensures
            puzzle.puzzle_width == info.puzzle_width,
            puzzle.puzzle_height == info.puzzle_height,
            puzzle.atlas_width == atlas_size(info.images@, info.puzzle_width, padding).0,
            puzzle.atlas_height == atlas_size(info.images@, info.puzzle_width, padding).1,
            puzzle.images@.len() == info.images@.len(),
            forall|i: int|
                0 <= i < info.images@.len() ==> {
                    let p = placement_at(info.images@, info.puzzle_width, padding, i);
                    &&& (#[trigger] puzzle.images@[i]).0 == p.0
                    &&& puzzle.images@[i].1 == p.1
                    &&& puzzle.images@[i].2 == info.images@[i].dest_x
                    &&& puzzle.images@[i].3 == info.images@[i].dest_y
                    &&& puzzle.images@[i].4 == info.images@[i].width
                    &&& puzzle.images@[i].5 == info.images@[i].height
                },
    {
        let ghost imgs = info.images@;
        let pw = info.puzzle_width;
        let n = info.images.len();
        let mut images: Vec<(u32, u32, u32, u32, u32, u32)> = Vec::new();
        let mut atlas_width: u32 = 0;
        let mut atlas_height: u32 = 0;
        let mut x: u32 = 0;
        let mut y: u32 = padding;
        let mut largest_y: u32 = 0;
        let mut i: usize = 0;
        while i < n
            invariant
                imgs == info.images@,
                n == imgs.len(),
                pw == info.puzzle_width,
                i <= n,
                layout_fits(imgs, pw, padding),
                x == layout_state_at(imgs, pw, padding, i as nat).x,
                y == layout_state_at(imgs, pw, padding, i as nat).y,
                largest_y == layout_state_at(imgs, pw, padding, i as nat).largest,
                atlas_width == layout_state_at(imgs, pw, padding, i as nat).width,
                atlas_height == layout_state_at(imgs, pw, padding, i as nat).height,
                images@.len() == i,
                forall|j: int|
                    0 <= j < i ==> {
                        let p = placement_at(imgs, pw, padding, j);
                        &&& (#[trigger] images@[j]).0 == p.0
                        &&& images@[j].1 == p.1
                        &&& images@[j].2 == imgs[j].dest_x
                        &&& images@[j].3 == imgs[j].dest_y
                        &&& images@[j].4 == imgs[j].width
                        &&& images@[j].5 == imgs[j].height
                    },
            decreases n - i,
        {
            let ghost s = layout_state_at(imgs, pw, padding, i as nat);
            let image = &info.images[i];
            let image_width = image.width;
            let image_height = image.height;
            assert(step_fits(
                layout_state_at(imgs, pw, padding, i as nat),
                imgs[(i as nat) as int].width as int,
                imgs[(i as nat) as int].height as int,
                pw,
                padding,
            ));
            x = x + padding;
            if x + image_width + padding >= pw {
                x = padding;
                y = y + (largest_y + padding);
                largest_y = 0;
            }
            images.push((x, y, image.dest_x, image.dest_y, image_width, image_height));
            x = x + image_width;
            let right = x + padding;
            let bottom = y + image_height + padding;
            if right > atlas_width {
                atlas_width = right;
            }
            if bottom > atlas_height {
                atlas_height = bottom;
            }
            if image_height > largest_y {
                largest_y = image_height;
            }
            i = i + 1;
        }
        Puzzle {
            puzzle_width: info.puzzle_width,
            puzzle_height: info.puzzle_height,
            atlas_width,
            atlas_height,
            images,
        }
    }
}

} // verus!
