use basket_catch::{Fate, Game, Item};

/// The basket's left edge, in surface units.
fn left_edge(game: &Game) -> f64 {
    game.basket_x2() as f64 / 2.0
}

fn game_with(item: Item) -> Game {
    let mut game = Game::new(400, 300);
    game.place_item(item);
    game
}

#[test]
fn item_over_the_basket_is_caught() {
    let mut game = game_with(Item { x: 180, y: 278 });
    assert_eq!(left_edge(&game), 160.0);
    game.step(None);
    assert_eq!(game.score(), 1);
    assert!(game.items().is_empty());
}

#[test]
fn item_beside_the_basket_is_kept_in_the_band() {
    let mut game = game_with(Item { x: 50, y: 278 });
    game.step(None);
    assert_eq!(game.score(), 0);
    assert_eq!(game.items(), &vec![Item { x: 50, y: 280 }]);
}

#[test]
fn item_past_the_bottom_is_missed() {
    let mut game = game_with(Item { x: 50, y: 298 });
    game.step(None);
    assert_eq!(game.score(), 0);
    assert!(game.items().is_empty());
}

#[test]
fn item_above_the_band_keeps_falling() {
    let mut game = game_with(Item { x: 180, y: 276 });
    game.step(None);
    assert_eq!(game.score(), 0);
    assert_eq!(game.items(), &vec![Item { x: 180, y: 278 }]);
    game.step(None);
    assert_eq!(game.score(), 1);
    assert!(game.items().is_empty());
}

#[test]
fn basket_edges_count_as_over_the_basket() {
    let mut game = Game::new(400, 300);
    game.place_item(Item { x: 159, y: 278 });
    game.place_item(Item { x: 160, y: 278 });
    game.place_item(Item { x: 240, y: 278 });
    game.place_item(Item { x: 241, y: 278 });
    game.step(None);
    assert_eq!(game.score(), 2);
    assert_eq!(game.items(), &vec![Item { x: 159, y: 280 }, Item { x: 241, y: 280 }]);
}

#[test]
fn basket_on_a_half_unit_catches_from_the_next_whole_unit_on() {
    let mut game = Game::new(401, 300);
    assert_eq!(left_edge(&game), 160.5);
    game.place_item(Item { x: 160, y: 278 });
    game.place_item(Item { x: 161, y: 278 });
    game.place_item(Item { x: 240, y: 278 });
    game.place_item(Item { x: 241, y: 278 });
    game.step(None);
    assert_eq!(game.score(), 2);
    assert_eq!(game.items(), &vec![Item { x: 160, y: 280 }, Item { x: 241, y: 280 }]);
    assert_eq!(game.judge(Item { x: 160, y: 298 }), Fate::Missed);
    assert_eq!(game.judge(Item { x: 161, y: 298 }), Fate::Caught);
}

#[test]
fn catching_comes_before_missing_at_the_bottom_edge() {
    let mut game = Game::new(400, 300);
    game.place_item(Item { x: 200, y: 298 });
    game.place_item(Item { x: 200, y: 5000 });
    game.place_item(Item { x: 300, y: 5000 });
    game.step(None);
    assert_eq!(game.score(), 2);
    assert!(game.items().is_empty());
}

#[test]
fn survivors_keep_their_order() {
    let mut game = Game::new(400, 300);
    game.place_item(Item { x: 10, y: 100 });
    game.place_item(Item { x: 200, y: 290 });
    game.place_item(Item { x: 20, y: 50 });
    game.place_item(Item { x: 30, y: 299 });
    game.place_item(Item { x: 40, y: 0 });
    game.step(Some(399));
    assert_eq!(game.score(), 1);
    assert_eq!(
        game.items(),
        &vec![
            Item { x: 10, y: 102 },
            Item { x: 20, y: 52 },
            Item { x: 40, y: 2 },
            Item { x: 399, y: 2 },
        ]
    );
}

#[test]
fn spawned_item_falls_in_its_first_frame() {
    let mut game = Game::new(400, 300);
    game.step(Some(7));
    assert_eq!(game.items(), &vec![Item { x: 7, y: 2 }]);
    game.step(None);
    assert_eq!(game.items(), &vec![Item { x: 7, y: 4 }]);
    assert_eq!(game.score(), 0);
}

#[test]
fn frame_without_spawn_adds_nothing() {
    let mut game = Game::new(400, 300);
    game.step(None);
    assert!(game.items().is_empty());
    assert_eq!(game.score(), 0);
}

#[test]
fn spawned_item_is_caught_at_once_on_a_low_surface() {
    let mut game = Game::new(100, 22);
    assert_eq!(left_edge(&game), 10.0);
    game.step(Some(50));
    assert_eq!(game.score(), 1);
    assert!(game.items().is_empty());
    game.step(Some(9));
    assert_eq!(game.score(), 1);
    assert_eq!(game.items(), &vec![Item { x: 9, y: 2 }]);
}

#[test]
fn nothing_stays_on_a_surface_without_height() {
    let mut game = Game::new(100, 0);
    game.step(Some(50));
    assert_eq!(game.score(), 1);
    game.step(Some(5));
    assert_eq!(game.score(), 1);
    assert!(game.items().is_empty());
}

#[test]
fn item_spawned_and_left_alone_is_caught_when_it_reaches_the_band() {
    let mut game = Game::new(400, 300);
    game.step(Some(180));
    for frame in 1..139 {
        game.step(None);
        assert_eq!(game.items(), &vec![Item { x: 180, y: 2 * (frame + 1) }]);
        assert_eq!(game.score(), 0);
    }
    assert_eq!(game.items(), &vec![Item { x: 180, y: 278 }]);
    game.step(None);
    assert_eq!(game.score(), 1);
    assert!(game.items().is_empty());
}

#[test]
fn score_counts_every_catch_once() {
    let mut game = Game::new(400, 300);
    for x in [160, 170, 180, 190, 200] {
        game.place_item(Item { x, y: 278 });
    }
    game.place_item(Item { x: 0, y: 278 });
    game.step(None);
    assert_eq!(game.score(), 5);
    game.step(None);
    assert_eq!(game.score(), 5);
    assert_eq!(game.items(), &vec![Item { x: 0, y: 282 }]);
}

#[test]
fn judge_tells_the_three_fates() {
    let game = Game::new(400, 300);
    assert_eq!(game.judge(Item { x: 180, y: 278 }), Fate::Caught);
    assert_eq!(game.judge(Item { x: 180, y: 277 }), Fate::Kept);
    assert_eq!(game.judge(Item { x: 50, y: 297 }), Fate::Kept);
    assert_eq!(game.judge(Item { x: 50, y: 298 }), Fate::Missed);
    assert_eq!(game.judge(Item { x: 180, y: 298 }), Fate::Caught);
    assert_eq!(game.judge(Item { x: 241, y: 4_294_967_295 }), Fate::Missed);
    assert_eq!(game.judge(Item { x: 240, y: 4_294_967_295 }), Fate::Caught);
}

#[test]
fn judge_does_not_change_the_game() {
    let game = game_with(Item { x: 180, y: 278 });
    assert_eq!(game.judge(Item { x: 180, y: 278 }), Fate::Caught);
    assert_eq!(game.score(), 0);
    assert_eq!(game.items(), &vec![Item { x: 180, y: 278 }]);
}

#[test]
fn tall_surface_keeps_items_up_to_its_last_row() {
    let mut game = Game::new(4_294_967_295, 4_294_967_295);
    game.place_item(Item { x: 0, y: 4_294_967_292 });
    game.place_item(Item { x: 0, y: 4_294_967_293 });
    game.step(None);
    assert_eq!(game.items(), &vec![Item { x: 0, y: 4_294_967_294 }]);
    assert_eq!(game.score(), 0);
}

#[test]
fn placed_item_goes_behind_the_others() {
    let mut game = Game::new(400, 300);
    game.place_item(Item { x: 1, y: 2 });
    game.place_item(Item { x: 3, y: 4 });
    assert_eq!(game.items(), &vec![Item { x: 1, y: 2 }, Item { x: 3, y: 4 }]);
    assert_eq!(game.score(), 0);
    assert_eq!(left_edge(&game), 160.0);
}
