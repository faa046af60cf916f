//! What holds of every game, proved from the rules of the model.

use crate::model::{
    arrivals, fall, Event, GameView, Point, BASKET_HEIGHT, BASKET_STEP, BASKET_WIDTH,
};
use vstd::prelude::*;

verus! {

/// A new game on a surface of positive width is valid.
pub proof fn lemma_start_is_valid(width: nat, height: nat)
    requires
        width > 0,
    ensures
        GameView::start(width, height).valid(),
{
}

/// A new game has its basket centred exactly: the margin left of the basket
/// equals the margin right of it, on odd widths too. In half units the left
/// margin is `basket_x2` and the right one is what remains of twice the
/// width after the left margin and twice the basket.
pub proof fn lemma_start_is_centred(width: nat, height: nat)
    ensures
        GameView::start(width, height).basket_x2 == width - BASKET_WIDTH,
        GameView::start(width, height).basket_x2 == 2 * width - 2 * BASKET_WIDTH
            - GameView::start(width, height).basket_x2,
        width >= BASKET_WIDTH ==> 0 <= GameView::start(width, height).basket_x2 <= 2 * (width
            - BASKET_WIDTH),
{
}

/// The surface keeps its size, whatever happens.
pub proof fn lemma_surface_is_fixed(g: GameView, events: Seq<Event>)
    ensures
        g.after(events).width == g.width,
        g.after(events).height == g.height,
    decreases events.len(),
{
    if events.len() > 0 {
        lemma_surface_is_fixed(g, events.drop_last());
    }
}

/// The left wall holds: a basket that stands at or right of the left edge
/// is never brought left of it, whatever series of nudges and frames follows.
pub proof fn lemma_left_wall_holds(g: GameView, events: Seq<Event>)
    requires
        g.basket_x2 >= 0,
    ensures
        g.after(events).basket_x2 >= 0,
    decreases events.len(),
{
    if events.len() > 0 {
        lemma_left_wall_holds(g, events.drop_last());
    }
}

/// The right wall holds: a basket whose right edge stands at or left of the
/// surface's right edge is never brought past it, whatever series of nudges
/// and frames follows.
pub proof fn lemma_right_wall_holds(g: GameView, events: Seq<Event>)
    requires
        g.basket_x2 + 2 * BASKET_WIDTH <= 2 * g.width,
    ensures
        g.after(events).basket_x2 + 2 * BASKET_WIDTH <= 2 * g.width,
    decreases events.len(),
{
    if events.len() > 0 {
        lemma_right_wall_holds(g, events.drop_last());
        lemma_surface_is_fixed(g, events.drop_last());
    }
}

/// A game that is valid stays valid, whatever happens. On a surface at least
/// as wide as the basket this says that the basket stays between the walls.
pub proof fn lemma_valid_stays_valid(g: GameView, events: Seq<Event>)
    requires
        g.valid(),
    ensures
        g.after(events).valid(),
        g.width >= BASKET_WIDTH ==> 0 <= g.after(events).basket_x2 <= 2 * (g.width
            - BASKET_WIDTH),
    decreases events.len(),
{
    if events.len() > 0 {
        lemma_valid_stays_valid(g, events.drop_last());
        lemma_surface_is_fixed(g, events.drop_last());
    }
}

/// A word other than `"left"` and `"right"` changes nothing.
pub proof fn lemma_unknown_word_is_ignored(g: GameView, direction: Seq<char>)
    requires
        direction != "left"@,
        direction != "right"@,
    ensures
        g.nudged(direction) == g,
{
}

/// A nudge moves nothing but the basket, and the basket by one step at most.
pub proof fn lemma_nudge_moves_only_basket(g: GameView, direction: Seq<char>)
    ensures
        g.nudged(direction) == (GameView { basket_x2: g.nudged(direction).basket_x2, ..g }),
        g.nudged(direction).basket_x2 == g.basket_x2
            || g.nudged(direction).basket_x2 == g.basket_x2 - 2 * BASKET_STEP
            || g.nudged(direction).basket_x2 == g.basket_x2 + 2 * BASKET_STEP,
{
}

/// A frame scores exactly the items it catches: the score grows by the
/// number of fallen items that have reached the basket's band and lie over
/// the basket, and the caught items are those fallen items and no others.
pub proof fn lemma_frame_scores_catches(g: GameView, spawn: Option<u32>)
    ensures
        g.frame(spawn).score == g.score + g.caught(g.fallen(spawn)).len(),
        g.frame(spawn).score >= g.score,
        forall|p: Point|
            g.caught(g.fallen(spawn)).contains(p) <==> g.fallen(spawn).contains(p) && p.y
                >= g.height - BASKET_HEIGHT && g.basket_x2 <= 2 * p.x <= g.basket_x2 + 2
                * BASKET_WIDTH,
{
    let fallen = g.fallen(spawn);
    let is_caught = |p: Point| g.catches(p);
    assert forall|p: Point| g.caught(fallen).contains(p) <==> fallen.contains(p) && g.catches(
        p,
    ) by {
        if g.caught(fallen).contains(p) {
            let i = choose|i: int| 0 <= i < g.caught(fallen).len() && g.caught(fallen)[i] == p;
            fallen.lemma_filter_pred(is_caught, i);
            fallen.lemma_filter_contains_rev(is_caught, p);
        }
        if fallen.contains(p) && g.catches(p) {
            let j = choose|j: int| 0 <= j < fallen.len() && fallen[j] == p;
            fallen.lemma_filter_contains(is_caught, j);
        }
    }
}

/// A frame catches no more items than were in the air or spawned, and so
/// raises the score by that many at most.
pub proof fn lemma_catches_bounded(g: GameView, spawn: Option<u32>)
    ensures
        g.catches_in_frame(spawn) <= g.items.len() + arrivals(spawn).len(),
        arrivals(spawn).len() <= 1,
        g.frame(spawn).score <= g.score + g.items.len() + 1,
{
    g.fallen(spawn).lemma_filter_len(|p: Point| g.catches(p));
}

/// The score never falls, whatever happens.
pub proof fn lemma_score_never_falls(g: GameView, events: Seq<Event>)
    ensures
        g.after(events).score >= g.score,
    decreases events.len(),
{
    if events.len() > 0 {
        lemma_score_never_falls(g, events.drop_last());
    }
}

/// After a frame every item in the air is above the bottom edge, and none of
/// them lies in the basket's band over the basket.
pub proof fn lemma_frame_leaves_items_in_field(g: GameView, spawn: Option<u32>)
    ensures
        forall|i: int|
            0 <= i < g.frame(spawn).items.len() ==> {
                &&& 0 <= (#[trigger] g.frame(spawn).items[i]).y < g.height
                &&& !g.catches(g.frame(spawn).items[i])
            },
{
    let fallen = g.fallen(spawn);
    let is_kept = |p: Point| g.keeps(p);
    assert forall|i: int| 0 <= i < g.frame(spawn).items.len() implies g.keeps(
        #[trigger] g.frame(spawn).items[i],
    ) by {
        fallen.lemma_filter_pred(is_kept, i);
    }
}

/// Items only fall: every item in the air after a frame was in the air
/// before it or spawned in it, and stands where it was but for one step
/// further down.
pub proof fn lemma_items_only_fall(g: GameView, spawn: Option<u32>)
    ensures
        forall|p: Point|
            g.frame(spawn).items.contains(p) ==> exists|q: Point|
                (g.items + arrivals(spawn)).contains(q) && p == #[trigger] fall(q),
{
    let before = g.items + arrivals(spawn);
    let fallen = g.fallen(spawn);
    assert forall|p: Point| g.frame(spawn).items.contains(p) implies exists|q: Point|
        before.contains(q) && p == #[trigger] fall(q) by {
        fallen.lemma_filter_contains_rev(|p: Point| g.keeps(p), p);
        let j = choose|j: int| 0 <= j < fallen.len() && fallen[j] == p;
        assert(before.contains(before[j]) && p == fall(before[j]));
    }
}

/// A frame whose roll does not spawn adds no item, wherever the item would
/// have been placed.
pub proof fn lemma_no_spawn_adds_nothing(g: GameView, roll: u32, place: u32)
    requires
        roll != 0,
    ensures
        GameView::spawn_for(roll, place) == None::<u32>,
        g.frame(GameView::spawn_for(roll, place)).items.len() <= g.items.len(),
{
    lemma_frame_adds_one_at_most(g, None);
}

/// A frame adds one item at most: what is in the air after it is what would
/// be there had nothing spawned, followed by the spawned item if it survived
/// its first fall.
pub proof fn lemma_frame_adds_one_at_most(g: GameView, spawn: Option<u32>)
    ensures
        g.frame(spawn).items == g.frame(None).items + g.survivors(
            arrivals(spawn).map_values(|p: Point| fall(p)),
        ),
        g.frame(None).items.len() <= g.items.len(),
        g.frame(spawn).items.len() <= g.items.len() + 1,
{
    let is_kept = |p: Point| g.keeps(p);
    let old_fallen = g.items.map_values(|p: Point| fall(p));
    let new_fallen = arrivals(spawn).map_values(|p: Point| fall(p));
    assert(g.fallen(spawn) =~= old_fallen + new_fallen);
    assert(g.fallen(None) =~= old_fallen);
    Seq::filter_distributes_over_add(old_fallen, new_fallen, is_kept);
    old_fallen.lemma_filter_len(is_kept);
    new_fallen.lemma_filter_len(is_kept);
}

} // verus!
