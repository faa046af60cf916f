use basket_catch::scene::Shape;
use basket_catch::{roll_spawns, Game};

#[test]
fn one_roll_in_twenty_spawns() {
    assert!(roll_spawns(0));
    for roll in 1..20 {
        assert!(!roll_spawns(roll));
    }
}

#[test]
fn update_spawns_sooner_or_later() {
    let mut game = Game::new(400, 100_000);
    for _ in 0..2000 {
        let _ = game.update();
    }
    assert!(!game.items().is_empty());
}

#[test]
fn update_spawns_inside_the_width() {
    let mut game = Game::new(3, 100_000);
    for _ in 0..2000 {
        let _ = game.update();
    }
    assert!(!game.items().is_empty());
    for item in game.items() {
        assert!(item.x < 3);
    }
}

#[test]
fn update_spawns_at_different_places() {
    let mut game = Game::new(1_000_000, 100_000);
    for _ in 0..2000 {
        let _ = game.update();
    }
    let first = game.items()[0].x;
    assert!(game.items().iter().any(|item| item.x != first));
}

#[test]
fn update_keeps_what_holds_after_every_frame() {
    let mut game = Game::new(400, 300);
    for frame in 0..5000 {
        if frame % 7 == 0 {
            game.move_basket("left");
        } else if frame % 11 == 0 {
            game.move_basket("right");
        }
        let score = game.score();
        let count = game.items().len();
        let basket_x2 = game.basket_x2();
        let shapes = game.update();
        assert_eq!(shapes, game.scene());
        assert_eq!(shapes.len(), game.items().len() + 3);
        assert!(game.score() >= score);
        assert!(game.score() as usize <= score as usize + count + 1);
        assert!(game.items().len() <= count + 1);
        assert_eq!(game.basket_x2(), basket_x2);
        assert_eq!(game.width(), 400);
        assert_eq!(game.height(), 300);
        for item in game.items() {
            assert!(item.x < 400);
            assert!(item.y < 300);
            assert!(item.y >= 2);
            assert!(item.y % 2 == 0);
        }
    }
}

#[test]
fn update_moves_every_item_down_by_the_fall_speed() {
    let mut game = Game::new(400, 300);
    game.place_item(basket_catch::Item { x: 1, y: 10 });
    game.place_item(basket_catch::Item { x: 2, y: 20 });
    let shapes = game.update();
    assert_eq!(shapes[0], Shape::Backdrop { width: 400, height: 300 });
    assert_eq!(shapes[1], Shape::Basket { left2: 320, top: 280, width: 80, height: 20 });
    assert_eq!(shapes[2], Shape::Disc { x: 1, y: 12, radius: 10 });
    assert_eq!(shapes[3], Shape::Disc { x: 2, y: 22, radius: 10 });
    assert_eq!(shapes[shapes.len() - 1], Shape::Caption { text: String::from("Score: 0") });
    assert_eq!(shapes.len(), game.items().len() + 3);
    assert_eq!(game.items()[0], basket_catch::Item { x: 1, y: 12 });
    assert_eq!(game.items()[1], basket_catch::Item { x: 2, y: 22 });
    assert!(game.items().len() <= 3);
    if game.items().len() == 3 {
        assert_eq!(game.items()[2].y, 2);
    }
}
