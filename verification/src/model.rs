//! The mathematical model of the game: positions, the state of a game as a
//! plain value, and the rules of one frame and of one nudge as functions on it.

use vstd::prelude::*;

verus! {

/// Width of the basket.
pub const BASKET_WIDTH: u32 = 80;

/// Height of the basket, and so of the band above the bottom edge in which
/// an item can be caught.
pub const BASKET_HEIGHT: u32 = 20;

/// Distance the basket travels on one accepted nudge.
pub const BASKET_STEP: u32 = 20;

/// Distance every item falls in one frame.
pub const FALL_SPEED: u32 = 2;

/// Number of equally likely outcomes of the spawn roll. Exactly one of them
/// lets an item spawn.
pub const SPAWN_ODDS: u32 = 20;

/// A position on the surface: `x` grows to the right, `y` grows downward.
pub struct Point {
    pub x: nat,
    pub y: nat,
}

/// A falling item, by the position of its centre.
#[derive(Clone, Copy, Debug, PartialEq, Eq, Structural)]
pub struct Item {
    pub x: u32,
    pub y: u32,
}

impl View for Item {
    type V = Point;

    open spec fn view(&self) -> Point {
        Point { x: self.x as nat, y: self.y as nat }
    }
}

/// What becomes of an item in the frame in which it has just fallen.
#[derive(Clone, Copy, Debug, PartialEq, Eq, Structural)]
pub enum Fate {
    /// It reached the basket's band above the basket: it scores and leaves.
    Caught,
    /// It passed the bottom edge beside the basket: it leaves without scoring.
    Missed,
    /// It is still in the air.
    Kept,
}

/// The state of a game as a mathematical value.
///
/// Items stand on whole units. The basket's left edge stands on a whole or a
/// half unit, since the centre of a surface of odd width lies on a half; it
/// is held in half units, exactly.
pub struct GameView {
    pub width: nat,
    pub height: nat,
    /// Twice the left edge of the basket: the edge lies at `basket_x2 / 2`.
    pub basket_x2: int,
    /// The items in the air, oldest first.
    pub items: Seq<Point>,
    pub score: nat,
}

/// Where an item stands after falling for one frame.
pub open spec fn fall(p: Point) -> Point {
    Point { x: p.x, y: p.y + FALL_SPEED as nat }
}

/// The items that a frame adds at the top edge: none, or one at `x`.
pub open spec fn arrivals(spawn: Option<u32>) -> Seq<Point> {
    match spawn {
        Some(x) => seq![Point { x: x as nat, y: 0 }],
        None => Seq::empty(),
    }
}

/// The views of a sequence of items, in order.
pub open spec fn points(items: Seq<Item>) -> Seq<Point> {
    items.map_values(|item: Item| item@)
}

/// Something that happens to a game: the player nudges the basket with a
/// word, or a frame is played in which an item may spawn.
pub enum Event {
    Nudge(Seq<char>),
    Frame(Option<u32>),
}

impl GameView {
    /// Twice the left edge of a basket that is centred on a surface of the
    /// given width: the edge lies at `width / 2 - BASKET_WIDTH / 2`, taken
    /// exactly, so that the margins on both sides are equal.
    pub open spec fn centred2(width: nat) -> int {
        width - BASKET_WIDTH
    }

    /// The basket stands where play can have brought it. On a surface that
    /// has room for it, it lies between the walls; on a narrower one it
    /// cannot move and stays centred.
    pub open spec fn basket_in_place(self) -> bool {
        if self.width >= BASKET_WIDTH {
            0 <= self.basket_x2 <= 2 * (self.width - BASKET_WIDTH)
        } else {
            self.basket_x2 == Self::centred2(self.width)
        }
    }

    /// The state is one that a game can be in.
    pub open spec fn valid(self) -> bool {
        &&& self.width > 0
        &&& self.basket_in_place()
    }

    /// A new game on a surface of the given size: the basket centred, no item
    /// in the air, no point scored.
    pub open spec fn start(width: nat, height: nat) -> GameView {
        GameView {
            width,
            height,
            basket_x2: Self::centred2(width),
            items: Seq::empty(),
            score: 0,
        }
    }

    /// The state after a nudge in `direction`. `"left"` and `"right"` move
    /// the basket by [`BASKET_STEP`] if it then still lies between the walls,
    /// and leave it where it is if not; any other word changes nothing.
    pub open spec fn nudged(self, direction: Seq<char>) -> GameView {
        if direction == "left"@ && self.basket_x2 - 2 * BASKET_STEP >= 0 {
            GameView { basket_x2: self.basket_x2 - 2 * BASKET_STEP, ..self }
        } else if direction == "right"@ && self.basket_x2 + 2 * BASKET_WIDTH + 2 * BASKET_STEP
            <= 2 * self.width {
            GameView { basket_x2: self.basket_x2 + 2 * BASKET_STEP, ..self }
        } else {
            self
        }
    }

    /// The item at `p`, which has fallen this frame, is caught: it has reached
    /// the basket's band and lies over the basket, edges included. The
    /// horizontal test is made in half units, where the basket's edges are
    /// whole numbers.
    pub open spec fn catches(self, p: Point) -> bool {
        &&& p.y >= self.height - BASKET_HEIGHT
        &&& self.basket_x2 <= 2 * p.x <= self.basket_x2 + 2 * BASKET_WIDTH
    }

    /// The item at `p`, which has fallen this frame, stays in the air: it is
    /// not caught and is still above the bottom edge.
    pub open spec fn keeps(self, p: Point) -> bool {
        &&& !self.catches(p)
        &&& p.y < self.height
    }

    /// What becomes of the item at `p`, which has fallen this frame. Catching
    /// is decided first, so an item over the basket is caught even at the
    /// bottom edge.
    pub open spec fn fate(self, p: Point) -> Fate {
        if self.catches(p) {
            Fate::Caught
        } else if self.keeps(p) {
            Fate::Kept
        } else {
            Fate::Missed
        }
    }

    /// Those of the fallen items `ps` that stay in the air, in order.
    pub open spec fn survivors(self, ps: Seq<Point>) -> Seq<Point> {
        ps.filter(|p: Point| self.keeps(p))
    }

    /// Those of the fallen items `ps` that are caught, in order.
    pub open spec fn caught(self, ps: Seq<Point>) -> Seq<Point> {
        ps.filter(|p: Point| self.catches(p))
    }

    /// All items of the frame after their fall: the ones in the air, then the
    /// one that spawned, each one step further down.
    pub open spec fn fallen(self, spawn: Option<u32>) -> Seq<Point> {
        (self.items + arrivals(spawn)).map_values(|p: Point| fall(p))
    }

    /// The number of items caught in the frame that starts here.
    pub open spec fn catches_in_frame(self, spawn: Option<u32>) -> nat {
        self.caught(self.fallen(spawn)).len()
    }

    /// What a spawn roll brings: the one roll that spawns brings an item at
    /// `place`, every other roll brings none.
    pub open spec fn spawn_for(roll: u32, place: u32) -> Option<u32> {
        if roll == 0 {
            Some(place)
        } else {
            None
        }
    }

    /// The state after one frame in which `spawn` says whether, and where, an
    /// item appeared at the top edge.
    pub open spec fn frame(self, spawn: Option<u32>) -> GameView {
        GameView {
            items: self.survivors(self.fallen(spawn)),
            score: self.score + self.catches_in_frame(spawn),
            ..self
        }
    }

    /// The state after one event.
    pub open spec fn next(self, event: Event) -> GameView {
        match event {
            Event::Nudge(direction) => self.nudged(direction),
            Event::Frame(spawn) => self.frame(spawn),
        }
    }

    /// The state after a series of events, the first of them first.
    pub open spec fn after(self, events: Seq<Event>) -> GameView
        decreases events.len(),
    {
        if events.len() == 0 {
            self
        } else {
            self.after(events.drop_last()).next(events.last())
        }
    }
}

} // verus!
