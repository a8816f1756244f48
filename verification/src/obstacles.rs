//! The walls in play, taken together: retiring those that have left the
//! screen, moving and drawing the rest, and finding a block at a position.

use crate::screen::{in_bounds, is_playfield, Pixel, Screen, Tile, SCREEN_HEIGHT, SCREEN_WIDTH};
use crate::wall::{lemma_covers_is_some_block, Block, Wall, WallView};
use vstd::prelude::*;

verus! {

/// The views of a vector of walls, in order.
pub open spec fn wall_views(walls: Seq<Wall>) -> Seq<WallView> {
    Seq::new(walls.len(), |i: int| walls[i]@)
}

/// Tells the walls that are still in play.
pub open spec fn in_play() -> spec_fn(WallView) -> bool {
    |w: WallView| !w.offscreen()
}

/// The walls that stay when those off the screen are retired, in their order.
pub open spec fn retired(walls: Seq<WallView>) -> Seq<WallView> {
    walls.filter(in_play())
}

/// Retiring keeps exactly the walls in play: whatever stays was there before
/// and is not off the screen, and whatever was there and is not off the
/// screen stays.
pub proof fn lemma_retired_keeps_walls_in_play(walls: Seq<WallView>)
    ensures
        retired(walls).len() <= walls.len(),
        forall|j: int|
            0 <= j < retired(walls).len() ==> !(#[trigger] retired(walls)[j]).offscreen()
                && walls.contains(retired(walls)[j]),
        forall|i: int|
            0 <= i < walls.len() && !(#[trigger] walls[i]).offscreen() ==> retired(walls).contains(
                walls[i],
            ),
{
    walls.lemma_filter_len(in_play());
    assert forall|j: int| 0 <= j < retired(walls).len() implies !(#[trigger] retired(
        walls,
    )[j]).offscreen() && walls.contains(retired(walls)[j]) by {
        walls.lemma_filter_pred(in_play(), j);
        assert(retired(walls).contains(retired(walls)[j]));
        walls.lemma_filter_contains_rev(in_play(), retired(walls)[j]);
    }
    assert forall|i: int| 0 <= i < walls.len() && !(#[trigger] walls[i]).offscreen() implies retired(
        walls,
    ).contains(walls[i]) by {
        walls.lemma_filter_contains(in_play(), i);
    }
}

/// Drops the walls that have left the screen.
pub fn retire(walls: Vec<Wall>) -> (kept: Vec<Wall>)
    requires
        forall|i: int| 0 <= i < walls@.len() ==> (#[trigger] walls@[i]).wf(),
    ensures
        forall|i: int| 0 <= i < kept@.len() ==> (#[trigger] kept@[i]).wf(),
        wall_views(kept@) == retired(wall_views(walls@)),
{
    let mut kept: Vec<Wall> = Vec::new();
    let ghost all = walls@;
    for wall in it: walls
        invariant
            it.seq() == all,
            forall|i: int| 0 <= i < all.len() ==> (#[trigger] all[i]).wf(),
            forall|i: int| 0 <= i < kept@.len() ==> (#[trigger] kept@[i]).wf(),
            wall_views(kept@) == retired(wall_views(all.take(it.index() as int))),
    {
        proof {
            let i = it.index() as int;
            let seen = wall_views(all.take(i));
            assert(wall_views(all.take(i + 1)) =~= seen.push(all[i]@));
            seen.lemma_filter_push(all[i]@, in_play());
            assert(wall == all[i]);
        }
        let ghost before = kept@;
        if !wall.is_offscreen() {
            kept.push(wall);
            assert(wall_views(kept@) =~= wall_views(before).push(wall@));
        }
    }
    assert(all.take(all.len() as int) =~= all);
    kept
}

/// Whether some wall has a block at column `x`, row `y`.
pub open spec fn hits(walls: Seq<WallView>, x: int, y: int) -> bool {
    exists|i: int| 0 <= i < walls.len() && (#[trigger] walls[i]).covers(x, y)
}

/// Whether one of the first `n` blocks lies at column `x`, row `y`.
pub open spec fn marked(blocks: Seq<Block>, n: int, x: int, y: int) -> bool {
    exists|k: int| 0 <= k < n && (#[trigger] blocks[k]).pixel.x == x && blocks[k].pixel.y == y
}

/// All the blocks of a wall mark a position exactly when the wall covers it.
proof fn lemma_marked_is_covers(w: WallView, x: int, y: int)
    requires
        w.valid(),
    ensures
        marked(w.blocks(), w.blocks().len() as int, x, y) <==> w.covers(x, y),
{
    lemma_covers_is_some_block(w, x, y);
}

/// Walls hit a position exactly when one of their blocks has that very
/// column and row.
pub proof fn lemma_hits_is_exact(walls: Seq<WallView>, x: int, y: int)
    requires
        forall|i: int| 0 <= i < walls.len() ==> (#[trigger] walls[i]).valid(),
    ensures
        hits(walls, x, y) <==> exists|i: int, k: int|
            0 <= i < walls.len() && 0 <= k < walls[i].blocks().len() && (#[trigger] walls[i].blocks()[k]).pixel.x
                == x && walls[i].blocks()[k].pixel.y == y,
{
    if hits(walls, x, y) {
        let i = choose|i: int| 0 <= i < walls.len() && (#[trigger] walls[i]).covers(x, y);
        lemma_marked_is_covers(walls[i], x, y);
        let k = choose|k: int|
            0 <= k < walls[i].blocks().len() && (#[trigger] walls[i].blocks()[k]).pixel.x == x
                && walls[i].blocks()[k].pixel.y == y;
        assert(walls[i].blocks()[k].pixel.x == x);
    }
    if exists|i: int, k: int|
        0 <= i < walls.len() && 0 <= k < walls[i].blocks().len() && (#[trigger] walls[i].blocks()[k]).pixel.x
            == x && walls[i].blocks()[k].pixel.y == y {
        let (i, k) = choose|i: int, k: int|
            0 <= i < walls.len() && 0 <= k < walls[i].blocks().len() && (#[trigger] walls[i].blocks()[k]).pixel.x
                == x && walls[i].blocks()[k].pixel.y == y;
        lemma_marked_is_covers(walls[i], x, y);
        assert(marked(walls[i].blocks(), walls[i].blocks().len() as int, x, y));
        assert(walls[i].covers(x, y));
    }
}

/// Whether any block of any wall lies exactly at `pixel`. A block next to it
/// does not count.
pub fn collides(walls: &Vec<Wall>, pixel: &Pixel) -> (hit: bool)
    requires
        forall|i: int| 0 <= i < walls@.len() ==> (#[trigger] walls@[i]).wf(),
    ensures
        hit == hits(wall_views(walls@), pixel.x as int, pixel.y as int),
{
    let ghost views = wall_views(walls@);
    let ghost (x, y) = (pixel.x as int, pixel.y as int);
    let mut i: usize = 0;
    while i < walls.len()
        invariant
            0 <= i <= walls@.len(),
            views == wall_views(walls@),
            x == pixel.x,
            y == pixel.y,
            forall|n: int| 0 <= n < walls@.len() ==> (#[trigger] walls@[n]).wf(),
            forall|n: int| 0 <= n < i ==> !(#[trigger] views[n]).covers(x, y),
        decreases walls@.len() - i,
    {
        let blocks = walls[i].blocks();
        proof {
            walls@[i as int].lemma_wf_valid();
            lemma_marked_is_covers(views[i as int], x, y);
        }
        let mut k: usize = 0;
        while k < blocks.len()
            invariant
                0 <= k <= blocks@.len(),
                0 <= i < walls@.len(),
                views == wall_views(walls@),
                x == pixel.x,
                y == pixel.y,
                blocks@ == views[i as int].blocks(),
                marked(blocks@, blocks@.len() as int, x, y) <==> views[i as int].covers(x, y),
                !marked(blocks@, k as int, x, y),
            decreases blocks@.len() - k,
        {
            if blocks[k].pixel == *pixel {
                assert(marked(blocks@, blocks@.len() as int, x, y));
                return true;
            }
            k += 1;
        }
        i += 1;
    }
    false
}

/// Each wall one tick later.
pub open spec fn advanced_all(walls: Seq<WallView>) -> Seq<WallView> {
    Seq::new(walls.len(), |i: int| walls[i].advanced())
}

/// A grid with the walls drawn over it: a cell that a wall covers shows
/// `Wall`, every other cell is as before.
pub open spec fn overlaid(base: Seq<Seq<Tile>>, walls: Seq<WallView>) -> Seq<Seq<Tile>> {
    Seq::new(
        SCREEN_HEIGHT as nat,
        |y: int|
            Seq::new(
                SCREEN_WIDTH as nat,
                |x: int|
                    if hits(walls, x, y) {
                        Tile::Wall
                    } else {
                        base[y][x]
                    },
            ),
    )
}

/// Moves every wall one tick to the left and draws its blocks, as far as they
/// lie on the playfield.
pub fn advance_walls(walls: &mut Vec<Wall>, screen: &mut Screen)
    requires
        old(screen).wf(),
        forall|i: int| 0 <= i < old(walls)@.len() ==> (#[trigger] old(walls)@[i]).wf(),
        forall|i: int| 0 <= i < old(walls)@.len() ==> (#[trigger] old(walls)@[i])@.can_advance(),
    ensures
        final(screen).wf(),
        forall|i: int| 0 <= i < final(walls)@.len() ==> (#[trigger] final(walls)@[i]).wf(),
        wall_views(final(walls)@) == advanced_all(wall_views(old(walls)@)),
        final(screen)@ == overlaid(old(screen)@, wall_views(final(walls)@)),
{
    let ghost base = screen@;
    let ghost start = wall_views(walls@);
    let ghost moved = advanced_all(start);
    let mut i: usize = 0;
    while i < walls.len()
        invariant
            0 <= i <= walls@.len(),
            is_playfield(base),
            screen.wf(),
            walls@.len() == start.len(),
            moved == advanced_all(start),
            forall|n: int| 0 <= n < walls@.len() ==> (#[trigger] walls@[n]).wf(),
            forall|n: int| 0 <= n < i ==> (#[trigger] walls@[n])@ == moved[n],
            forall|n: int| i <= n < walls@.len() ==> (#[trigger] walls@[n])@ == start[n],
            forall|n: int| i <= n < walls@.len() ==> (#[trigger] walls@[n])@.can_advance(),
            forall|x: int, y: int|
                in_bounds(x, y) ==> #[trigger] screen@[y][x] == (if hits(moved.take(i as int), x, y) {
                    Tile::Wall
                } else {
                    base[y][x]
                }),
        decreases walls@.len() - i,
    {
        let ghost prior = walls@;
        walls[i].update_pixel();
        assert(forall|n: int| 0 <= n < walls@.len() && n != i ==> walls@[n] == prior[n]);
        assert(walls@[i as int]@ == moved[i as int]);
        let blocks = walls[i].blocks();
        let ghost done = moved.take(i as int);
        proof {
            walls@[i as int].lemma_wf_valid();
        }
        let mut k: usize = 0;
        while k < blocks.len()
            invariant
                0 <= k <= blocks@.len(),
                0 <= i < walls@.len(),
                is_playfield(base),
                screen.wf(),
                done == moved.take(i as int),
                blocks@ == moved[i as int].blocks(),
                forall|x: int, y: int|
                    in_bounds(x, y) ==> #[trigger] screen@[y][x] == (if hits(done, x, y) || marked(
                        blocks@,
                        k as int,
                        x,
                        y,
                    ) {
                        Tile::Wall
                    } else {
                        base[y][x]
                    }),
            decreases blocks@.len() - k,
        {
            let ghost shown = screen@;
            screen.set(&blocks[k].pixel, Tile::Wall);
            proof {
                let (bx, by) = (blocks@[k as int].pixel.x as int, blocks@[k as int].pixel.y as int);
                assert forall|x: int, y: int| in_bounds(x, y) implies #[trigger] screen@[y][x] == (
                if hits(done, x, y) || marked(blocks@, k + 1, x, y) {
                    Tile::Wall
                } else {
                    base[y][x]
                }) by {
                    assert(shown[y].len() == SCREEN_WIDTH);
                    if x == bx && y == by {
                        assert(marked(blocks@, k + 1, x, y));
                    } else {
                        assert(screen@[y][x] == shown[y][x]);
                        if marked(blocks@, k + 1, x, y) {
                            let n = choose|n: int|
                                0 <= n < k + 1 && (#[trigger] blocks@[n]).pixel.x == x
                                    && blocks@[n].pixel.y == y;
                            assert(n < k);
                            assert(marked(blocks@, k as int, x, y));
                        }
                        if marked(blocks@, k as int, x, y) {
                            let n = choose|n: int|
                                0 <= n < k && (#[trigger] blocks@[n]).pixel.x == x && blocks@[n].pixel.y
                                    == y;
                            assert(marked(blocks@, k + 1, x, y));
                        }
                    }
                }
            }
            k += 1;
        }
        proof {
            let next = moved.take(i + 1);
            assert forall|x: int, y: int| in_bounds(x, y) implies #[trigger] screen@[y][x] == (
            if hits(next, x, y) {
                Tile::Wall
            } else {
                base[y][x]
            }) by {
                lemma_marked_is_covers(moved[i as int], x, y);
                if hits(next, x, y) {
                    let n = choose|n: int| 0 <= n < next.len() && (#[trigger] next[n]).covers(x, y);
                    if n < i {
                        assert(done[n].covers(x, y));
                    }
                }
                if hits(done, x, y) {
                    let n = choose|n: int| 0 <= n < done.len() && (#[trigger] done[n]).covers(x, y);
                    assert(next[n].covers(x, y));
                }
                if moved[i as int].covers(x, y) {
                    assert(next[i as int].covers(x, y));
                }
            }
        }
        i += 1;
    }
    proof {
        assert(moved.take(walls@.len() as int) =~= moved);
        assert(wall_views(walls@) =~= moved);
        assert(screen@ =~= overlaid(base, moved)) by {
            assert forall|y: int| 0 <= y < SCREEN_HEIGHT implies #[trigger] screen@[y] =~= overlaid(
                base,
                moved,
            )[y] by {
                assert forall|x: int| 0 <= x < SCREEN_WIDTH implies screen@[y][x] == overlaid(
                    base,
                    moved,
                )[y][x] by {
                    assert(in_bounds(x, y));
                }
            }
        }
    }
}

} // verus!
