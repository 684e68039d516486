//! The rules by which positions enter the load queues.
//!
//! A refresh walks the cube of chunk positions around the observer in a
//! fixed order and appends what it finds wanted to a queue, until the queue
//! is full.

use crate::voxel_tools::position::ChunkPosition;
use vstd::prelude::*;

verus! {

/// The largest render distance, in chunks, that a manager accepts.
pub const MAX_RENDER_DISTANCE: i32 = 1024;

/// One row of the walk: the positions `dy` and `dz` away from `center` on y
/// and z, with x running over the first `n` places from `center.x - r` up.
pub open spec fn scan_row(center: ChunkPosition, r: int, dy: int, dz: int, n: nat) -> Seq<
    ChunkPosition,
> {
    Seq::new(n, |i: int| center.offset(i - r, dy, dz))
}

/// One layer of the walk: the first `n` rows, z rising from `center.z - r`.
pub open spec fn scan_plane(center: ChunkPosition, r: int, dy: int, n: nat) -> Seq<ChunkPosition>
    decreases n,
{
    if n == 0 {
        Seq::empty()
    } else {
        scan_plane(center, r, dy, (n - 1) as nat) + scan_row(
            center,
            r,
            dy,
            n - 1 - r,
            (2 * r + 1) as nat,
        )
    }
}

/// The first `n` layers of the walk, y rising from `center.y - r`.
pub open spec fn scan_cube(center: ChunkPosition, r: int, n: nat) -> Seq<ChunkPosition>
    decreases n,
{
    if n == 0 {
        Seq::empty()
    } else {
        scan_cube(center, r, (n - 1) as nat) + scan_plane(
            center,
            r,
            n - 1 - r,
            (2 * r + 1) as nat,
        )
    }
}

/// The walk over the cube of radius `r` around `center`: every position from
/// `center - r` to `center + r` on each axis, y outermost, then z, then x,
/// each rising.
pub open spec fn neighborhood(center: ChunkPosition, r: int) -> Seq<ChunkPosition> {
    scan_cube(center, r, (2 * r + 1) as nat)
}

/// Whether `p` lies in the cube of radius `r` around `center`.
pub open spec fn in_box(center: ChunkPosition, r: int, p: ChunkPosition) -> bool {
    &&& center.x - r <= p.x <= center.x + r
    &&& center.y - r <= p.y <= center.y + r
    &&& center.z - r <= p.z <= center.z + r
}

/// Whether the walk reaches `p` before `q`.
pub open spec fn walked_before(p: ChunkPosition, q: ChunkPosition) -> bool {
    p.y < q.y || (p.y == q.y && (p.z < q.z || (p.z == q.z && p.x < q.x)))
}

/// Whether a walk around `center` with radius `r` stays on the chunk grid.
pub open spec fn walkable(center: ChunkPosition, r: int) -> bool {
    &&& 0 <= r
    &&& center.can_offset(-r - 1, -r - 1, -r - 1)
    &&& center.can_offset(r + 1, r + 1, r + 1)
}

/// The test that a refresh puts to a position: it is wanted, and the queue
/// does not hold it yet.
pub open spec fn wanted_and_new(
    queue: Seq<ChunkPosition>,
    wanted: spec_fn(ChunkPosition) -> bool,
) -> spec_fn(ChunkPosition) -> bool {
    |p: ChunkPosition| wanted(p) && !queue.contains(p)
}

/// The smaller of two numbers.
pub open spec fn at_most(a: int, b: int) -> int {
    if a <= b {
        a
    } else {
        b
    }
}

/// The queue after a refresh: the positions of the walk that are wanted and
/// not queued yet are appended in walk order, as many as the queue has room
/// for.
pub open spec fn refreshed(
    queue: Seq<ChunkPosition>,
    walk: Seq<ChunkPosition>,
    wanted: spec_fn(ChunkPosition) -> bool,
    cap: nat,
) -> Seq<ChunkPosition> {
    let found = walk.filter(wanted_and_new(queue, wanted));
    if queue.len() >= cap {
        queue
    } else {
        queue + found.take(at_most(found.len() as int, cap - queue.len()))
    }
}

/// Every position of a row lies on the row, in the cube, and after the
/// positions before it.
proof fn lemma_row(center: ChunkPosition, r: int, dy: int, dz: int, n: nat)
    requires
        walkable(center, r),
        -r <= dy <= r,
        -r <= dz <= r,
        n <= 2 * r + 1,
    ensures
        scan_row(center, r, dy, dz, n).len() == n,
        forall|i: int|
            0 <= i < n ==> {
                let p = #[trigger] scan_row(center, r, dy, dz, n)[i];
                p.x == center.x - r + i && p.y == center.y + dy && p.z == center.z + dz
            },
{
}

/// Every position of a layer lies on its y, on one of its first `n` rows, and
/// in the cube; and the layer is walked in order.
proof fn lemma_plane(center: ChunkPosition, r: int, dy: int, n: nat)
    requires
        walkable(center, r),
        -r <= dy <= r,
        n <= 2 * r + 1,
    ensures
        forall|i: int|
            0 <= i < scan_plane(center, r, dy, n).len() ==> {
                let p = #[trigger] scan_plane(center, r, dy, n)[i];
                &&& p.y == center.y + dy
                &&& center.z - r <= p.z < center.z - r + n
                &&& center.x - r <= p.x <= center.x + r
            },
        forall|i: int, j: int|
            0 <= i < j < scan_plane(center, r, dy, n).len() ==> walked_before(
                #[trigger] scan_plane(center, r, dy, n)[i],
                #[trigger] scan_plane(center, r, dy, n)[j],
            ),
    decreases n,
{
    if n > 0 {
        let head = scan_plane(center, r, dy, (n - 1) as nat);
        let row = scan_row(center, r, dy, n - 1 - r, (2 * r + 1) as nat);
        lemma_plane(center, r, dy, (n - 1) as nat);
        lemma_row(center, r, dy, n - 1 - r, (2 * r + 1) as nat);
        let all = scan_plane(center, r, dy, n);
        assert(all == head + row);
        assert forall|i: int| 0 <= i < all.len() implies {
            let p = #[trigger] all[i];
            &&& p.y == center.y + dy
            &&& center.z - r <= p.z < center.z - r + n
            &&& center.x - r <= p.x <= center.x + r
        } by {
            if i < head.len() {
                assert(all[i] == head[i]);
            } else {
                assert(all[i] == row[i - head.len()]);
            }
        }
        assert forall|i: int, j: int| 0 <= i < j < all.len() implies walked_before(
            #[trigger] all[i],
            #[trigger] all[j],
        ) by {
            if j < head.len() {
                assert(all[i] == head[i] && all[j] == head[j]);
            } else if i < head.len() {
                assert(all[i] == head[i] && all[j] == row[j - head.len()]);
            } else {
                assert(all[i] == row[i - head.len()] && all[j] == row[j - head.len()]);
            }
        }
    }
}

/// Every position of the first `n` layers lies in the cube, on one of those
/// layers; and the layers are walked in order.
proof fn lemma_cube(center: ChunkPosition, r: int, n: nat)
    requires
        walkable(center, r),
        n <= 2 * r + 1,
    ensures
        forall|i: int|
            0 <= i < scan_cube(center, r, n).len() ==> {
                let p = #[trigger] scan_cube(center, r, n)[i];
                &&& center.y - r <= p.y < center.y - r + n
                &&& center.z - r <= p.z <= center.z + r
                &&& center.x - r <= p.x <= center.x + r
            },
        forall|i: int, j: int|
            0 <= i < j < scan_cube(center, r, n).len() ==> walked_before(
                #[trigger] scan_cube(center, r, n)[i],
                #[trigger] scan_cube(center, r, n)[j],
            ),
    decreases n,
{
    if n > 0 {
        let head = scan_cube(center, r, (n - 1) as nat);
        let plane = scan_plane(center, r, n - 1 - r, (2 * r + 1) as nat);
        lemma_cube(center, r, (n - 1) as nat);
        lemma_plane(center, r, n - 1 - r, (2 * r + 1) as nat);
        let all = scan_cube(center, r, n);
        assert(all == head + plane);
        assert forall|i: int| 0 <= i < all.len() implies {
            let p = #[trigger] all[i];
            &&& center.y - r <= p.y < center.y - r + n
            &&& center.z - r <= p.z <= center.z + r
            &&& center.x - r <= p.x <= center.x + r
        } by {
            if i < head.len() {
                assert(all[i] == head[i]);
            } else {
                assert(all[i] == plane[i - head.len()]);
            }
        }
        assert forall|i: int, j: int| 0 <= i < j < all.len() implies walked_before(
            #[trigger] all[i],
            #[trigger] all[j],
        ) by {
            if j < head.len() {
                assert(all[i] == head[i] && all[j] == head[j]);
            } else if i < head.len() {
                assert(all[i] == head[i] && all[j] == plane[j - head.len()]);
            } else {
                assert(all[i] == plane[i - head.len()] && all[j] == plane[j - head.len()]);
            }
        }
    }
}

/// The walk passes every position of the cube once, and none outside it.
pub proof fn lemma_neighborhood(center: ChunkPosition, r: int)
    requires
        walkable(center, r),
    ensures
        neighborhood(center, r).no_duplicates(),
        forall|i: int|
            0 <= i < neighborhood(center, r).len() ==> in_box(
                center,
                r,
                #[trigger] neighborhood(center, r)[i],
            ),
        forall|i: int, j: int|
            0 <= i < j < neighborhood(center, r).len() ==> walked_before(
                #[trigger] neighborhood(center, r)[i],
                #[trigger] neighborhood(center, r)[j],
            ),
{
    lemma_cube(center, r, (2 * r + 1) as nat);
    let walk = neighborhood(center, r);
    assert forall|i: int, j: int|
        0 <= i < walk.len() && 0 <= j < walk.len() && i != j implies walk[i] != walk[j] by {
        if i < j {
            assert(walked_before(walk[i], walk[j]));
        } else {
            assert(walked_before(walk[j], walk[i]));
        }
    }
}

/// A layer holds every position of each of its rows.
proof fn lemma_plane_holds_row(center: ChunkPosition, r: int, dy: int, n: nat, row: int, i: int)
    requires
        0 <= r,
        0 <= row < n,
        0 <= i < 2 * r + 1,
    ensures
        scan_plane(center, r, dy, n).contains(center.offset(i - r, dy, row - r)),
    decreases n,
{
    let head = scan_plane(center, r, dy, (n - 1) as nat);
    let last = scan_row(center, r, dy, n - 1 - r, (2 * r + 1) as nat);
    let p = center.offset(i - r, dy, row - r);
    assert(scan_plane(center, r, dy, n) == head + last);
    if row == n - 1 {
        assert(last[i] == p);
        assert((head + last)[head.len() + i] == p);
    } else {
        lemma_plane_holds_row(center, r, dy, (n - 1) as nat, row, i);
        let j = choose|j: int| 0 <= j < head.len() && head[j] == p;
        assert((head + last)[j] == p);
    }
}

/// The first `n` layers hold every position of each of them.
proof fn lemma_cube_holds_plane(
    center: ChunkPosition,
    r: int,
    n: nat,
    layer: int,
    row: int,
    i: int,
)
    requires
        0 <= r,
        0 <= layer < n,
        0 <= row < 2 * r + 1,
        0 <= i < 2 * r + 1,
    ensures
        scan_cube(center, r, n).contains(center.offset(i - r, layer - r, row - r)),
    decreases n,
{
    let head = scan_cube(center, r, (n - 1) as nat);
    let last = scan_plane(center, r, n - 1 - r, (2 * r + 1) as nat);
    let p = center.offset(i - r, layer - r, row - r);
    assert(scan_cube(center, r, n) == head + last);
    if layer == n - 1 {
        lemma_plane_holds_row(center, r, layer - r, (2 * r + 1) as nat, row, i);
        let j = choose|j: int| 0 <= j < last.len() && last[j] == p;
        assert((head + last)[head.len() + j] == p);
    } else {
        lemma_cube_holds_plane(center, r, (n - 1) as nat, layer, row, i);
        let j = choose|j: int| 0 <= j < head.len() && head[j] == p;
        assert((head + last)[j] == p);
    }
}

/// The walk leaves out no position of the cube.
pub proof fn lemma_neighborhood_is_whole(center: ChunkPosition, r: int, p: ChunkPosition)
    requires
        walkable(center, r),
        in_box(center, r, p),
    ensures
        neighborhood(center, r).contains(p),
{
    lemma_cube_holds_plane(
        center,
        r,
        (2 * r + 1) as nat,
        p.y - center.y + r,
        p.z - center.z + r,
        p.x - center.x + r,
    );
    assert(center.offset(p.x - center.x, p.y - center.y, p.z - center.z) == p);
}

/// The part of the walk that lies behind once `ny` layers, `nz` rows of the
/// next layer and `nx` positions of the next row are walked.
pub open spec fn walked(center: ChunkPosition, r: int, ny: nat, nz: nat, nx: nat) -> Seq<
    ChunkPosition,
> {
    scan_cube(center, r, ny) + scan_plane(center, r, ny - r, nz) + scan_row(
        center,
        r,
        ny - r,
        nz - r,
        nx,
    )
}

/// What a layer holds behind its first `n` rows.
proof fn lemma_plane_rest(center: ChunkPosition, r: int, dy: int, n: nat) -> (rest: Seq<
    ChunkPosition,
>)
    requires
        0 <= r,
        n <= 2 * r + 1,
    ensures
        scan_plane(center, r, dy, (2 * r + 1) as nat) == scan_plane(center, r, dy, n) + rest,
    decreases 2 * r + 1 - n,
{
    if n == 2 * r + 1 {
        assert(scan_plane(center, r, dy, n) + Seq::empty() =~= scan_plane(center, r, dy, n));
        Seq::empty()
    } else {
        let later = lemma_plane_rest(center, r, dy, n + 1);
        let row = scan_row(center, r, dy, n - r, (2 * r + 1) as nat);
        assert(scan_plane(center, r, dy, n + 1) == scan_plane(center, r, dy, n) + row);
        assert(scan_plane(center, r, dy, n) + row + later =~= scan_plane(center, r, dy, n) + (row
            + later));
        row + later
    }
}

/// What the walk holds behind its first `n` layers.
proof fn lemma_cube_rest(center: ChunkPosition, r: int, n: nat) -> (rest: Seq<ChunkPosition>)
    requires
        0 <= r,
        n <= 2 * r + 1,
    ensures
        neighborhood(center, r) == scan_cube(center, r, n) + rest,
    decreases 2 * r + 1 - n,
{
    if n == 2 * r + 1 {
        assert(scan_cube(center, r, n) + Seq::empty() =~= scan_cube(center, r, n));
        Seq::empty()
    } else {
        let later = lemma_cube_rest(center, r, n + 1);
        let plane = scan_plane(center, r, n - r, (2 * r + 1) as nat);
        assert(scan_cube(center, r, n + 1) == scan_cube(center, r, n) + plane);
        assert(scan_cube(center, r, n) + plane + later =~= scan_cube(center, r, n) + (plane
            + later));
        plane + later
    }
}

/// The walk is what was walked so far, followed by the rest; and while the
/// row is not at its end, the rest begins with the next position of the row.
pub(crate) proof fn lemma_walk_rest(
    center: ChunkPosition,
    r: int,
    ny: nat,
    nz: nat,
    nx: nat,
) -> (rest: Seq<ChunkPosition>)
    requires
        0 <= r,
        ny < 2 * r + 1,
        nz < 2 * r + 1,
        nx <= 2 * r + 1,
    ensures
        neighborhood(center, r) == walked(center, r, ny, nz, nx) + rest,
        nx < 2 * r + 1 ==> rest.len() > 0 && rest[0] == center.offset(nx - r, ny - r, nz - r),
{
    let width = (2 * r + 1) as nat;
    let cube = scan_cube(center, r, ny);
    let plane = scan_plane(center, r, ny - r, nz);
    let row = scan_row(center, r, ny - r, nz - r, nx);
    let whole_row = scan_row(center, r, ny - r, nz - r, width);
    let row_rest = whole_row.skip(nx as int);
    let plane_rest = lemma_plane_rest(center, r, ny - r, nz + 1);
    let cube_rest = lemma_cube_rest(center, r, ny + 1);
    assert(row + row_rest =~= whole_row);
    assert(scan_plane(center, r, ny - r, nz + 1) == plane + whole_row);
    assert(scan_cube(center, r, ny + 1) == cube + scan_plane(center, r, ny - r, width));
    let rest = row_rest + plane_rest + cube_rest;
    assert(neighborhood(center, r) =~= cube + plane + row + rest);
    if nx < width {
        assert(rest[0] == whole_row[nx as int]);
    }
    rest
}

/// How what was walked grows: by one position along a row, and from the end
/// of a row to the start of the next, of a layer to the start of the next,
/// and of the last layer to the whole walk.
pub(crate) proof fn lemma_walked_grows(center: ChunkPosition, r: int, ny: nat, nz: nat, nx: nat)
    requires
        0 <= r,
    ensures
        walked(center, r, ny, nz, nx + 1) == walked(center, r, ny, nz, nx).push(
            center.offset(nx - r, ny - r, nz - r),
        ),
        walked(center, r, ny, nz, (2 * r + 1) as nat) == walked(center, r, ny, nz + 1, 0),
        walked(center, r, ny, (2 * r + 1) as nat, 0) == walked(center, r, ny + 1, 0, 0),
        walked(center, r, 0, 0, 0) == Seq::<ChunkPosition>::empty(),
        walked(center, r, (2 * r + 1) as nat, 0, 0) == neighborhood(center, r),
{
    let width = (2 * r + 1) as nat;
    assert(walked(center, r, ny, nz, nx + 1) =~= walked(center, r, ny, nz, nx).push(
        center.offset(nx - r, ny - r, nz - r),
    ));
    assert(scan_plane(center, r, ny - r, nz + 1) == scan_plane(center, r, ny - r, nz) + scan_row(
        center,
        r,
        ny - r,
        nz - r,
        width,
    ));
    assert(walked(center, r, ny, nz, width) =~= walked(center, r, ny, nz + 1, 0));
    assert(scan_cube(center, r, ny + 1) == scan_cube(center, r, ny) + scan_plane(
        center,
        r,
        ny - r,
        width,
    ));
    assert(walked(center, r, ny, width, 0) =~= walked(center, r, ny + 1, 0, 0));
    assert(walked(center, r, 0, 0, 0) =~= Seq::<ChunkPosition>::empty());
    assert(walked(center, r, width, 0, 0) =~= neighborhood(center, r));
}

/// A sequence without repeats keeps none after filtering.
pub(crate) proof fn lemma_filter_no_duplicates<A>(s: Seq<A>, pred: spec_fn(A) -> bool)
    requires
        s.no_duplicates(),
    ensures
        s.filter(pred).no_duplicates(),
    decreases s.len(),
{
    reveal(Seq::filter);
    if s.len() > 0 {
        let rest = s.drop_last();
        lemma_filter_no_duplicates(rest, pred);
        if pred(s.last()) {
            let kept = rest.filter(pred);
            assert forall|i: int| 0 <= i < kept.len() implies kept[i] != s.last() by {
                rest.lemma_filter_contains_rev(pred, kept[i]);
                let j = choose|j: int| 0 <= j < rest.len() && rest[j] == kept[i];
                assert(s[j] == kept[i]);
            }
        }
    }
}

/// Filtering the first `k` items gives the first items of the filtered whole.
pub(crate) proof fn lemma_filter_take<A>(s: Seq<A>, pred: spec_fn(A) -> bool, k: int)
    requires
        0 <= k <= s.len(),
    ensures
        s.take(k).filter(pred).len() <= s.filter(pred).len(),
        s.take(k).filter(pred) == s.filter(pred).take(s.take(k).filter(pred).len() as int),
{
    assert(s == s.take(k) + s.skip(k));
    Seq::filter_distributes_over_add(s.take(k), s.skip(k), pred);
    assert(s.filter(pred) == s.take(k).filter(pred) + s.skip(k).filter(pred));
    assert(s.filter(pred).take(s.take(k).filter(pred).len() as int) =~= s.take(k).filter(pred));
}

/// What a refresh leaves in a queue: the former queue at the front, no more
/// than the cap, nothing twice, and behind the former queue only positions
/// of the walk that were wanted and not queued.
pub proof fn lemma_refreshed(
    queue: Seq<ChunkPosition>,
    walk: Seq<ChunkPosition>,
    wanted: spec_fn(ChunkPosition) -> bool,
    cap: nat,
)
    requires
        queue.no_duplicates(),
        walk.no_duplicates(),
        queue.len() <= cap,
    ensures
        queue.len() <= refreshed(queue, walk, wanted, cap).len() <= cap,
        refreshed(queue, walk, wanted, cap).take(queue.len() as int) == queue,
        refreshed(queue, walk, wanted, cap).no_duplicates(),
        forall|i: int|
            queue.len() <= i < refreshed(queue, walk, wanted, cap).len() ==> {
                let p = #[trigger] refreshed(queue, walk, wanted, cap)[i];
                wanted(p) && walk.contains(p) && !queue.contains(p)
            },
        refreshed(queue, walk, wanted, cap).len() < cap ==> forall|p: ChunkPosition|
            #[trigger] walk.contains(p) && wanted(p) ==> refreshed(
                queue,
                walk,
                wanted,
                cap,
            ).contains(p),
{
    let pred = wanted_and_new(queue, wanted);
    let found = walk.filter(pred);
    let result = refreshed(queue, walk, wanted, cap);
    if queue.len() < cap {
        let n = at_most(found.len() as int, cap - queue.len());
        let added = found.take(n);
        lemma_filter_no_duplicates(walk, pred);
        assert(result == queue + added);
        assert(result.take(queue.len() as int) =~= queue);
        assert forall|i: int| 0 <= i < added.len() implies wanted(added[i]) && walk.contains(
            added[i],
        ) && !queue.contains(added[i]) by {
            assert(added[i] == found[i]);
            walk.lemma_filter_pred(pred, i);
            assert(found.contains(found[i]));
            walk.lemma_filter_contains_rev(pred, found[i]);
        }
        assert forall|i: int| queue.len() <= i < result.len() implies {
            let p = #[trigger] result[i];
            wanted(p) && walk.contains(p) && !queue.contains(p)
        } by {
            assert(result[i] == added[i - queue.len()]);
        }
        assert forall|i: int, j: int|
            0 <= i < queue.len() && 0 <= j < added.len() implies queue[i] != added[j] by {
            assert(queue.contains(queue[i]));
        }
        assert(added.no_duplicates()) by {
            assert forall|i: int, j: int|
                0 <= i < added.len() && 0 <= j < added.len() && i != j implies added[i]
                != added[j] by {
                assert(added[i] == found[i] && added[j] == found[j]);
            }
        }
        vstd::seq_lib::lemma_no_dup_in_concat(queue, added);
        if result.len() < cap {
            assert(added =~= found);
            assert forall|p: ChunkPosition|
                #[trigger] walk.contains(p) && wanted(p) implies result.contains(p) by {
                if queue.contains(p) {
                    let i = choose|i: int| 0 <= i < queue.len() && queue[i] == p;
                    assert(result[i] == p);
                } else {
                    let i = choose|i: int| 0 <= i < walk.len() && walk[i] == p;
                    walk.lemma_filter_contains(pred, i);
                    let j = choose|j: int| 0 <= j < found.len() && found[j] == p;
                    assert(result[queue.len() + j] == p);
                }
            }
        }
    } else {
        assert(result.take(queue.len() as int) =~= queue);
    }
}

/// When a refresh ends, the queue is what `refreshed` says. It ends with the
/// queue full, having walked `seen` of a walk that goes on with `rest`, or
/// at the end of the walk.
pub(crate) proof fn lemma_refresh_ends(
    queue: Seq<ChunkPosition>,
    walk: Seq<ChunkPosition>,
    wanted: spec_fn(ChunkPosition) -> bool,
    cap: nat,
    seen: Seq<ChunkPosition>,
    rest: Seq<ChunkPosition>,
)
    requires
        walk == seen + rest,
        queue.len() < cap,
        queue.len() + seen.filter(wanted_and_new(queue, wanted)).len() <= cap,
        rest.len() == 0 || queue.len() + seen.filter(wanted_and_new(queue, wanted)).len() == cap,
    ensures
        queue + seen.filter(wanted_and_new(queue, wanted)) == refreshed(queue, walk, wanted, cap),
{
    let test = wanted_and_new(queue, wanted);
    let found = walk.filter(test);
    assert(walk.take(seen.len() as int) =~= seen);
    lemma_filter_take(walk, test, seen.len() as int);
    if rest.len() == 0 {
        assert(walk =~= seen);
        assert(found.take(found.len() as int) =~= found);
    }
}

/// A position is in two sequences laid end to end where it is in either.
pub(crate) proof fn lemma_contains_in_concat(
    a: Seq<ChunkPosition>,
    b: Seq<ChunkPosition>,
    p: ChunkPosition,
)
    ensures
        (a + b).contains(p) <==> a.contains(p) || b.contains(p),
{
    if a.contains(p) {
        let i = choose|i: int| 0 <= i < a.len() && a[i] == p;
        assert((a + b)[i] == p);
    }
    if b.contains(p) {
        let i = choose|i: int| 0 <= i < b.len() && b[i] == p;
        assert((a + b)[a.len() + i] == p);
    }
    if (a + b).contains(p) {
        let i = choose|i: int| 0 <= i < (a + b).len() && (a + b)[i] == p;
        if i < a.len() {
            assert(a[i] == p);
        } else {
            assert(b[i - a.len()] == p);
        }
    }
}

/// Appending a position that a sequence without repeats does not hold
/// leaves it without repeats.
pub(crate) proof fn lemma_push_no_duplicates(s: Seq<ChunkPosition>, p: ChunkPosition)
    requires
        s.no_duplicates(),
        !s.contains(p),
    ensures
        s.push(p).no_duplicates(),
{
    assert forall|i: int, j: int|
        0 <= i < s.push(p).len() && 0 <= j < s.push(p).len() && i != j implies s.push(p)[i]
        != s.push(p)[j] by {
        if i < s.len() {
            assert(s.contains(s[i]));
        }
        if j < s.len() {
            assert(s.contains(s[j]));
        }
    }
}

} // verus!
