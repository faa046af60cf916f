//! The game itself: its state, one frame of play, and the basket's moves.

use crate::chance::draw_below;
use crate::model::{
    fall, points, Fate, GameView, Item, Point, BASKET_HEIGHT, BASKET_STEP, BASKET_WIDTH,
    FALL_SPEED, SPAWN_ODDS,
};
use crate::laws::{
    lemma_catches_bounded, lemma_frame_adds_one_at_most, lemma_frame_leaves_items_in_field,
};
use crate::scene::{figures, Shape};
use crate::text::same_text;
use vstd::prelude::*;

verus! {

/// A game in progress on a surface of fixed size.
pub struct Game {
    width: u32,
    height: u32,
    basket_x2: i64,
    items: Vec<Item>,
    score: u32,
}

impl View for Game {
    type V = GameView;

    closed spec fn view(&self) -> GameView {
        GameView {
            width: self.width as nat,
            height: self.height as nat,
            basket_x2: self.basket_x2 as int,
            items: points(self.items@),
            score: self.score as nat,
        }
    }
}

impl Game {
    #[verifier::type_invariant]
    spec fn inv(self) -> bool {
        self@.valid()
    }

    /// Starts a game on a surface `width` wide and `height` high: the basket
    /// centred, nothing in the air, the score at zero.
    ///
    /// The width must be positive, so that there is a place for an item to
    /// spawn. The height may be zero: every item then leaves in its first
    /// frame.
    pub fn new(width: u32, height: u32) -> (game: Game)
        requires
            width > 0,
        ensures
            game@ == GameView::start(width as nat, height as nat),
            game@.valid(),
    {
        let game = Game {
            width,
            height,
            basket_x2: width as i64 - BASKET_WIDTH as i64,
            items: Vec::new(),
            score: 0,
        };
        assert(game@.items =~= Seq::empty());
        game
    }

    /// Plays one frame as chance has it, and hands back what is then to be
    /// painted. The spawn roll is drawn below [`SPAWN_ODDS`]; if it lets an
    /// item spawn, the item's place is drawn below the width; then the frame
    /// is played as [`Game::step`] plays it. The shapes are those of the game
    /// after the frame, in painting order: the backdrop, the basket, a disc
    /// for each item still in the air, the caption with the new score.
    ///
    /// Which frame was played depends on the draws, so the contract names
    /// none: it says that the new state is that of a frame some roll and
    /// some place on this surface give, and what holds after every such
    /// frame.
    ///
    /// The score must have room for a catch of every item in the air and of
    /// the one that may spawn.
    pub fn update(&mut self) -> (shapes: Vec<Shape>)
        requires
            old(self)@.score + old(self)@.items.len() < u32::MAX,
        ensures
            exists|roll: u32, place: u32|
                roll < SPAWN_ODDS && place < old(self)@.width && final(self)@ == old(
                    self,
                )@.frame(#[trigger] GameView::spawn_for(roll, place)),
            figures(shapes@) == final(self)@.scene(),
            final(self)@.valid(),
            final(self)@.width == old(self)@.width,
            final(self)@.height == old(self)@.height,
            final(self)@.basket_x2 == old(self)@.basket_x2,
            final(self)@.score >= old(self)@.score,
            final(self)@.items.len() <= old(self)@.items.len() + 1,
            forall|i: int|
                0 <= i < final(self)@.items.len() ==> 0 <= (#[trigger] final(self)@.items[i]).y
                    < final(self)@.height,
    {
        proof {
            use_type_invariant(&*self);
        }
        let roll: u32 = draw_below(SPAWN_ODDS);
        let spawn: Option<u32> = if roll_spawns(roll) {
            let place: u32 = draw_below(self.width);
            assert(GameView::spawn_for(roll, place) == Some(place));
            Some(place)
        } else {
            assert(GameView::spawn_for(roll, 0) == None::<u32>);
            None
        };
        proof {
            lemma_catches_bounded(self@, spawn);
        }
        self.step(spawn);
        self.scene()
    }

    /// Plays one frame in which `spawn` says whether, and where, an item
    /// appears at the top edge. Every item falls by [`FALL_SPEED`], the new
    /// one included; the caught ones score one point each and leave, the
    /// missed ones leave, the others stay in their order.
    ///
    /// The score must have room for this frame's catches.
    pub fn step(&mut self, spawn: Option<u32>)
        requires
            old(self)@.score + old(self)@.catches_in_frame(spawn) <= u32::MAX,
        ensures
            final(self)@ == old(self)@.frame(spawn),
            final(self)@.valid(),
            final(self)@.score >= old(self)@.score,
            final(self)@.items.len() <= old(self)@.items.len() + 1,
            spawn is None ==> final(self)@.items.len() <= old(self)@.items.len(),
            forall|i: int|
                0 <= i < final(self)@.items.len() ==> 0 <= (#[trigger] final(self)@.items[i]).y
                    < final(self)@.height,
    {
        proof {
            use_type_invariant(&*self);
        }
        let ghost before = self@;
        let ghost fallen = before.fallen(spawn);
        proof {
            lemma_frame_leaves_items_in_field(before, spawn);
            lemma_frame_adds_one_at_most(before, spawn);
        }
        let mut kept: Vec<Item> = Vec::new();
        let mut catches: u32 = 0;
        let count: usize = self.items.len();
        let mut i: usize = 0;
        assert(fallen.take(0) =~= Seq::empty());
        while i < count
            invariant
                i <= count,
                count == self.items.len(),
                self@ == before,
                fallen == before.fallen(spawn),
                points(kept@) == before.survivors(fallen.take(i as int)),
                catches == before.caught(fallen.take(i as int)).len(),
                before.score + before.caught(fallen).len() <= u32::MAX,
            decreases count - i,
        {
            let item = self.items[i];
            proof {
                assert(fallen[i as int] == fall(item@));
                lemma_decide_next(before, fallen, i as int);
                lemma_caught_prefix(before, fallen, i as int + 1);
            }
            self.settle(item, &mut kept, &mut catches);
            i = i + 1;
        }
        match spawn {
            Some(x) => {
                let item = Item { x, y: 0 };
                proof {
                    assert(fallen[count as int] == fall(item@));
                    lemma_decide_next(before, fallen, count as int);
                    assert(fallen.take(count as int + 1) =~= fallen);
                }
                self.settle(item, &mut kept, &mut catches);
            },
            None => {
                assert(fallen.take(count as int) =~= fallen);
            },
        }
        self.items = kept;
        self.score = self.score + catches;
    }

    /// Nudges the basket one step to the `"left"` or to the `"right"`. At a
    /// wall the basket stays where it is, and any other word is ignored.
    pub fn move_basket(&mut self, direction: &str)
        ensures
            final(self)@ == old(self)@.nudged(direction@),
            final(self)@.valid(),
    {
        proof {
            use_type_invariant(&*self);
            reveal_strlit("left");
            reveal_strlit("right");
            assert("left"@.len() != "right"@.len());
        }
        let step2: i64 = 2 * BASKET_STEP as i64;
        if same_text(direction, "left") {
            if self.basket_x2 - step2 >= 0 {
                self.basket_x2 = self.basket_x2 - step2;
            }
        } else if same_text(direction, "right") {
            if self.basket_x2 + 2 * BASKET_WIDTH as i64 + step2 <= 2 * self.width as i64 {
                self.basket_x2 = self.basket_x2 + step2;
            }
        }
    }

    /// What this frame brings for an item that stood at `item` when the frame
    /// began: it falls, and is then caught, missed or kept.
    pub fn judge(&self, item: Item) -> (fate: Fate)
        ensures
            fate == self@.fate(fall(item@)),
    {
        proof {
            use_type_invariant(self);
        }
        let x2: i64 = 2 * item.x as i64;
        let y: i64 = item.y as i64 + FALL_SPEED as i64;
        let band: i64 = self.height as i64 - BASKET_HEIGHT as i64;
        if y >= band && self.basket_x2 <= x2 && x2 <= self.basket_x2 + 2 * BASKET_WIDTH as i64 {
            Fate::Caught
        } else if y >= self.height as i64 {
            Fate::Missed
        } else {
            Fate::Kept
        }
    }

    /// Puts `item` into the air, behind the items already there. Play itself
    /// only ever adds an item at the top edge; this sets up any position.
    pub fn place_item(&mut self, item: Item)
        ensures
            final(self)@ == (GameView { items: old(self)@.items.push(item@), ..old(self)@ }),
            final(self)@.valid(),
    {
        proof {
            use_type_invariant(&*self);
        }
        let mut items: Vec<Item> = Vec::new();
        std::mem::swap(&mut items, &mut self.items);
        items.push(item);
        self.items = items;
        assert(points(self.items@) =~= points(old(self).items@).push(item@));
    }

    /// Width of the surface.
    pub fn width(&self) -> (width: u32)
        ensures
            width == self@.width,
    {
        self.width
    }

    /// Height of the surface.
    pub fn height(&self) -> (height: u32)
        ensures
            height == self@.height,
    {
        self.height
    }

    /// Twice the left edge of the basket: the edge lies at half of this, on
    /// a half unit where the width is odd. It is negative only on a surface
    /// narrower than the basket.
    pub fn basket_x2(&self) -> (x2: i64)
        ensures
            x2 == self@.basket_x2,
            self@.valid(),
            -(BASKET_WIDTH as int) < x2 <= 2 * u32::MAX,
    {
        proof {
            use_type_invariant(self);
        }
        self.basket_x2
    }

    /// The points scored so far.
    pub fn score(&self) -> (score: u32)
        ensures
            score == self@.score,
    {
        self.score
    }

    /// The items in the air, oldest first.
    pub fn items(&self) -> (items: &Vec<Item>)
        ensures
            points(items@) == self@.items,
    {
        &self.items
    }

    /// Lets one item fall and files it: among `kept` if it stays in the air,
    /// onto the count of `catches` if it is caught.
    fn settle(&self, item: Item, kept: &mut Vec<Item>, catches: &mut u32)
        requires
            self@.fate(fall(item@)) == Fate::Caught ==> *old(catches) < u32::MAX,
        ensures
            points(final(kept)@) == if self@.fate(fall(item@)) == Fate::Kept {
                points(old(kept)@).push(fall(item@))
            } else {
                points(old(kept)@)
            },
            *final(catches) == if self@.fate(fall(item@)) == Fate::Caught {
                *old(catches) + 1
            } else {
                *old(catches) as int
            },
    {
        match self.judge(item) {
            Fate::Caught => {
                *catches = *catches + 1;
            },
            Fate::Missed => {},
            Fate::Kept => {
                let lower = Item { x: item.x, y: item.y + FALL_SPEED };
                kept.push(lower);
                assert(points(kept@) =~= points(old(kept)@).push(lower@));
            },
        }
    }
}

/// Whether a spawn roll, drawn below [`SPAWN_ODDS`], lets an item spawn: one
/// outcome of the roll does, the others do not.
pub fn roll_spawns(roll: u32) -> (spawns: bool)
    ensures
        spawns == (roll == 0),
{
    roll == 0
}

/// Filtering the first `i + 1` of `ps` is filtering the first `i` and then
/// deciding on `ps[i]`.
proof fn lemma_filter_take_next(ps: Seq<Point>, pred: spec_fn(Point) -> bool, i: int)
    requires
        0 <= i < ps.len(),
    ensures
        ps.take(i + 1).filter(pred) == if pred(ps[i]) {
            ps.take(i).filter(pred).push(ps[i])
        } else {
            ps.take(i).filter(pred)
        },
{
    reveal(Seq::filter);
    assert(ps.take(i + 1).drop_last() =~= ps.take(i));
}

/// Deciding on the first `i + 1` of the fallen items `ps` is deciding on the
/// first `i` and then on `ps[i]`: it joins the survivors if it is kept, the
/// caught if it is caught, and neither if it is missed.
proof fn lemma_decide_next(g: GameView, ps: Seq<Point>, i: int)
    requires
        0 <= i < ps.len(),
    ensures
        g.survivors(ps.take(i + 1)) == if g.fate(ps[i]) == Fate::Kept {
            g.survivors(ps.take(i)).push(ps[i])
        } else {
            g.survivors(ps.take(i))
        },
        g.caught(ps.take(i + 1)) == if g.fate(ps[i]) == Fate::Caught {
            g.caught(ps.take(i)).push(ps[i])
        } else {
            g.caught(ps.take(i))
        },
{
    lemma_filter_take_next(ps, |p: Point| g.keeps(p), i);
    lemma_filter_take_next(ps, |p: Point| g.catches(p), i);
}

/// Among the first `i` of the fallen items `ps` no more are caught than among
/// all of them.
proof fn lemma_caught_prefix(g: GameView, ps: Seq<Point>, i: int)
    requires
        0 <= i <= ps.len(),
    ensures
        g.caught(ps.take(i)).len() <= g.caught(ps).len(),
{
    assert(ps =~= ps.take(i) + ps.skip(i));
    Seq::filter_distributes_over_add(ps.take(i), ps.skip(i), |p: Point| g.catches(p));
}

} // verus!
