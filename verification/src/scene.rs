//! What a frame looks like, as plain shapes listed in the order in which
//! they are painted: the surface to clear, the basket, one disc for each item
//! in the air, and last the score's caption. Colours and fonts are the
//! painter's.

use crate::game::Game;
use crate::model::{points, GameView, Point, BASKET_HEIGHT, BASKET_WIDTH};
use crate::text::{decimal, push_decimal};
use vstd::prelude::*;
use vstd::string::StringExecFns;

verus! {

/// Radius of the disc that shows an item.
pub const ITEM_RADIUS: u32 = 10;

/// One thing to paint. Lengths are in surface units, but for the basket's
/// left edge, which is in half units because it can lie on a half.
#[derive(Clone, Debug, PartialEq, Eq)]
pub enum Shape {
    /// The whole surface, filled from its top left corner.
    Backdrop { width: u32, height: u32 },
    /// The basket: a rectangle whose left edge lies at `left2 / 2` and whose
    /// top edge lies at `top`.
    Basket { left2: i64, top: i64, width: u32, height: u32 },
    /// An item: a filled circle around `(x, y)`.
    Disc { x: u32, y: u32, radius: u32 },
    /// The score, as text.
    Caption { text: String },
}

/// A [`Shape`] as a mathematical value.
pub enum Figure {
    Backdrop { width: nat, height: nat },
    Basket { left2: int, top: int, width: nat, height: nat },
    Disc { centre: Point, radius: nat },
    Caption { text: Seq<char> },
}

impl View for Shape {
    type V = Figure;

    open spec fn view(&self) -> Figure {
        match *self {
            Shape::Backdrop { width, height } => Figure::Backdrop {
                width: width as nat,
                height: height as nat,
            },
            Shape::Basket { left2, top, width, height } => Figure::Basket {
                left2: left2 as int,
                top: top as int,
                width: width as nat,
                height: height as nat,
            },
            Shape::Disc { x, y, radius } => Figure::Disc {
                centre: Point { x: x as nat, y: y as nat },
                radius: radius as nat,
            },
            Shape::Caption { text } => Figure::Caption { text: text@ },
        }
    }
}

/// The views of a sequence of shapes, in order.
pub open spec fn figures(shapes: Seq<Shape>) -> Seq<Figure> {
    shapes.map_values(|shape: Shape| shape@)
}

/// The caption that shows a score: the word, then the number in decimal.
pub open spec fn caption_of(score: nat) -> Seq<char> {
    "Score: "@ + decimal(score)
}

/// The disc that shows the item at `p`: centred on it, with [`ITEM_RADIUS`].
pub open spec fn disc_at(p: Point) -> Figure {
    Figure::Disc { centre: p, radius: ITEM_RADIUS as nat }
}

impl GameView {
    /// The whole surface.
    pub open spec fn backdrop(self) -> Figure {
        Figure::Backdrop { width: self.width, height: self.height }
    }

    /// The basket: [`BASKET_WIDTH`] wide from its left edge and
    /// [`BASKET_HEIGHT`] high, standing on the bottom edge of the surface.
    pub open spec fn basket(self) -> Figure {
        Figure::Basket {
            left2: self.basket_x2,
            top: self.height - BASKET_HEIGHT,
            width: BASKET_WIDTH as nat,
            height: BASKET_HEIGHT as nat,
        }
    }

    /// What this state looks like, in painting order: the backdrop, the
    /// basket, one disc for each item in the air in the items' order, and
    /// last the caption with the score.
    pub open spec fn scene(self) -> Seq<Figure> {
        seq![self.backdrop(), self.basket()] + self.items.map_values(|p: Point| disc_at(p))
            + seq![Figure::Caption { text: caption_of(self.score) }]
    }
}

impl Game {
    /// The shapes that show the game as it stands, in painting order.
    pub fn scene(&self) -> (shapes: Vec<Shape>)
        ensures
            figures(shapes@) == self@.scene(),
    {
        let items = self.items();
        let ghost head = seq![self@.backdrop(), self@.basket()];
        let mut shapes: Vec<Shape> = Vec::new();
        shapes.push(Shape::Backdrop { width: self.width(), height: self.height() });
        shapes.push(
            Shape::Basket {
                left2: self.basket_x2(),
                top: self.height() as i64 - BASKET_HEIGHT as i64,
                width: BASKET_WIDTH,
                height: BASKET_HEIGHT,
            },
        );
        assert(figures(shapes@) =~= head + self@.items.take(0).map_values(|p: Point| disc_at(p)));
        let mut i: usize = 0;
        while i < items.len()
            invariant
                i <= items.len(),
                points(items@) == self@.items,
                head == seq![self@.backdrop(), self@.basket()],
                figures(shapes@) == head + self@.items.take(i as int).map_values(
                    |p: Point| disc_at(p),
                ),
            decreases items.len() - i,
        {
            let item = items[i];
            let ghost shown = shapes@;
            shapes.push(Shape::Disc { x: item.x, y: item.y, radius: ITEM_RADIUS });
            assert(self@.items[i as int] == item@);
            assert(figures(shapes@) =~= figures(shown).push(disc_at(item@)));
            assert(self@.items.take(i + 1).map_values(|p: Point| disc_at(p))
                =~= self@.items.take(i as int).map_values(|p: Point| disc_at(p)).push(
                disc_at(item@),
            ));
            assert(figures(shapes@) =~= head + self@.items.take(i + 1).map_values(
                |p: Point| disc_at(p),
            ));
            i = i + 1;
        }
        assert(self@.items.take(i as int) =~= self@.items);
        let mut text = String::from_str("Score: ");
        push_decimal(&mut text, self.score());
        let ghost shown = shapes@;
        shapes.push(Shape::Caption { text });
        assert(figures(shapes@) =~= figures(shown).push(
            Figure::Caption { text: caption_of(self@.score) },
        ));
        assert(figures(shapes@) =~= self@.scene());
        shapes
    }
}

} // verus!
