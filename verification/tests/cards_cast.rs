use tilecast::card::{
    card_random, evaluate, redraw_cards, setup_all_cards_collection, Card, CardCollection,
    CardKind, CardRequirement, CARDS_PER_HAND,
};
use tilecast::cast::{
    damage_enemy, execute_actions, finish_execution, post_execute, start_cast, ActionMessage,
    ActionMessagePool, ActionMessagePoolEmpty, CastState, FinishedExecution, StartCast,
    TICKS_PER_SECOND,
};
use tilecast::geom::Vec2i;
use tilecast::grid::{Grid, GridConfig, GridTileColor, Index};
use tilecast::healthbar::Health;
use tilecast::score::Score;

fn config() -> GridConfig {
    GridConfig {
        dimensions: (5, 3),
        tile_size: Vec2i { x: 96, y: 96 },
        movement_speed: 128,
    }
}

/// A grid with every tile painted `fill`.
fn grid_filled(fill: GridTileColor) -> Grid {
    let mut grid = Grid::new(config());
    let (w, h) = grid.config.dimensions;
    for x in 0..w {
        for y in 0..h {
            grid.set_tile_color(&Index::new(x, y), fill);
        }
    }
    grid
}

fn requirement(entries: &[(usize, usize, GridTileColor)]) -> CardRequirement {
    CardRequirement {
        tiles: entries.iter().map(|&(x, y, c)| (Index::new(x, y), c)).collect(),
    }
}

#[test]
fn evaluation_counts_matches_with_wildcard() {
    let mut grid = grid_filled(GridTileColor::Brown);
    grid.set_tile_color(&Index::new(0, 0), GridTileColor::Blue);
    grid.set_tile_color(&Index::new(1, 1), GridTileColor::Multicolor);
    let req = requirement(&[(0, 0, GridTileColor::Blue), (1, 1, GridTileColor::Red)]);
    // the wildcard on the grid side matches the expected red
    assert_eq!(evaluate(&req, &grid), 2);
    grid.set_tile_color(&Index::new(1, 1), GridTileColor::Green);
    assert_eq!(evaluate(&req, &grid), 1);
}

#[test]
fn evaluation_skips_absent_slots() {
    let grid = grid_filled(GridTileColor::Blue);
    let req = requirement(&[(0, 0, GridTileColor::Blue), (9, 9, GridTileColor::Blue)]);
    assert_eq!(evaluate(&req, &grid), 1);
    let empty = requirement(&[]);
    assert_eq!(evaluate(&empty, &grid), 0);
}

#[test]
fn scenario_two_blue_hits_one_red_miss() {
    // a five-column, three-row grid, all blue but the centre tile
    let mut grid = grid_filled(GridTileColor::Blue);
    grid.set_tile_color(&Index::new(2, 2), GridTileColor::Red);
    let req = requirement(&[
        (0, 0, GridTileColor::Blue),
        (2, 2, GridTileColor::Blue),
        (4, 2, GridTileColor::Blue),
    ]);
    assert_eq!(evaluate(&req, &grid), 2);
}

#[test]
fn fixed_requirements_per_kind() {
    let c = config();
    let croc = tilecast::card::requirements_for(CardKind::Crocodile, &c);
    assert_eq!(
        croc.tiles,
        vec![
            (Index::new(1, 1), GridTileColor::Green),
            (Index::new(1, 2), GridTileColor::Green),
        ]
    );
    let river = tilecast::card::requirements_for(CardKind::River, &c);
    assert_eq!(river.tiles.len(), 5);
    for (x, entry) in river.tiles.iter().enumerate() {
        assert_eq!(*entry, (Index::new(x, 0), GridTileColor::Blue));
    }
}

#[test]
fn diamond_requirement_lands_on_the_grid() {
    // on a one-by-one grid the only possible slot is the origin: if the
    // random draw handed anything else back, this would fail
    let tiny = GridConfig {
        dimensions: (1, 1),
        tile_size: Vec2i { x: 96, y: 96 },
        movement_speed: 128,
    };
    for _ in 0..20 {
        let req = tilecast::card::requirements_for(CardKind::Diamond, &tiny);
        assert_eq!(req.tiles, vec![(Index::new(0, 0), GridTileColor::Blue)]);
    }
    // on the full grid it stays in bounds
    let c = config();
    for _ in 0..50 {
        let req = tilecast::card::requirements_for(CardKind::Diamond, &c);
        assert_eq!(req.tiles.len(), 1);
        let (index, color) = req.tiles[0];
        assert!(index.x < c.dimensions.0 && index.y < c.dimensions.1);
        assert_eq!(color, GridTileColor::Blue);
    }
}

#[test]
fn collection_holds_crocodile_and_river() {
    let c = setup_all_cards_collection();
    assert_eq!(c.kinds, vec![CardKind::Crocodile, CardKind::River]);
}

#[test]
fn random_card_comes_from_the_collection() {
    // a one-kind collection leaves no choice: if the random draw handed
    // its argument back unchanged, the index would be out of bounds
    let solo = CardCollection { kinds: vec![CardKind::Diamond] };
    for _ in 0..20 {
        assert_eq!(card_random(&solo), CardKind::Diamond);
    }
    let both = setup_all_cards_collection();
    for _ in 0..50 {
        let kind = card_random(&both);
        assert!(kind == CardKind::Crocodile || kind == CardKind::River);
    }
}

#[test]
fn a_hand_is_three_positioned_cards() {
    let collection = setup_all_cards_collection();
    let cards = redraw_cards(&collection, &config());
    assert_eq!(cards.len(), CARDS_PER_HAND);
    for (i, card) in cards.iter().enumerate() {
        assert_eq!(card.index, i);
        assert!(card.kind == CardKind::Crocodile || card.kind == CardKind::River);
        match card.kind {
            CardKind::Crocodile => assert_eq!(card.requirement.tiles.len(), 2),
            CardKind::River => assert_eq!(card.requirement.tiles.len(), 5),
            CardKind::Diamond => panic!("not in the collection"),
        }
    }
}

#[test]
fn card_names_and_sprites() {
    assert_eq!(CardKind::Crocodile.card_name(), "Card Crocodile");
    assert_eq!(CardKind::River.card_name(), "Card River");
    assert_eq!(CardKind::Diamond.card_name(), "Diamond");
    assert_eq!(CardKind::Crocodile.sprite_name(), "crocodile.png");
    assert_eq!(CardKind::Crocodile.background_sprite_name(), "green_card.png");
    assert_eq!(CardKind::River.background_sprite_name(), "blue_card.png");
}

#[test]
fn pool_delivers_in_due_order() {
    let mut pool = ActionMessagePool::new(0);
    pool.write_after(ActionMessage::DamageEnemy(5), 5);
    pool.write_after(ActionMessage::DamageEnemy(1), 1);
    pool.write_after(ActionMessage::DamageEnemy(3), 3);
    let (out, empty) = pool.tick(1);
    assert_eq!(out, vec![ActionMessage::DamageEnemy(1)]);
    assert!(!empty);
    let (out, empty) = pool.tick(2);
    assert_eq!(out, vec![ActionMessage::DamageEnemy(3)]);
    assert!(!empty);
    let (out, empty) = pool.tick(10);
    assert_eq!(out, vec![ActionMessage::DamageEnemy(5)]);
    assert!(empty);
}

#[test]
fn pool_breaks_ties_first_in_first_out() {
    let mut pool = ActionMessagePool::new(100);
    pool.write_after(ActionMessage::DamageEnemy(1), 2);
    pool.write_after(ActionMessage::DamageEnemy(2), 2);
    pool.write_after(ActionMessage::DamageEnemy(3), 0);
    let (out, empty) = pool.tick(2);
    assert_eq!(
        out,
        vec![
            ActionMessage::DamageEnemy(3),
            ActionMessage::DamageEnemy(1),
            ActionMessage::DamageEnemy(2),
        ]
    );
    assert!(empty);
}

#[test]
fn pool_empty_signal_fires_exactly_once_per_drain() {
    let mut pool = ActionMessagePool::new(0);
    let (_, empty) = pool.tick(10);
    // nothing was ever outstanding: no signal
    assert!(!empty);
    pool.write_after(ActionMessage::FinishedExecution, 5);
    let (_, empty) = pool.tick(5);
    assert!(empty);
    let (out, empty) = pool.tick(5);
    assert!(out.is_empty());
    assert!(!empty);
    // a second drain arms the signal again
    pool.write_after(ActionMessage::DamageEnemy(1), 0);
    let (_, empty) = pool.tick(0);
    assert!(empty);
}

#[test]
fn damage_stops_at_zero() {
    let mut health = Health(5);
    health.apply_damage(3);
    assert_eq!(health.0, 2);
    health.apply_damage(7);
    assert_eq!(health.0, 0);
}

#[test]
fn delivered_damage_lands_in_order() {
    let mut health = Health(100);
    let delivered = vec![
        ActionMessage::DamageEnemy(3),
        ActionMessage::FinishedExecution,
        ActionMessage::DamageEnemy(200),
    ];
    damage_enemy(&mut health, &delivered);
    assert_eq!(health.0, 0);
    let mut health = Health(100);
    damage_enemy(&mut health, &vec![ActionMessage::DamageEnemy(3), ActionMessage::DamageEnemy(4)]);
    assert_eq!(health.0, 93);
}

#[test]
fn cast_trigger_only_while_idle() {
    let mut state = CastState::Idle;
    let execute = start_cast(&mut state, StartCast);
    assert!(execute.is_some());
    assert_eq!(state, CastState::ExecutingActions);
    // a second trigger before completion is a no-op on state
    let execute = start_cast(&mut state, StartCast);
    assert!(execute.is_none());
    assert_eq!(state, CastState::ExecutingActions);
    // completion fires the two follow-on requests exactly once
    let requests = post_execute(&mut state, FinishedExecution);
    assert!(requests.is_some());
    assert_eq!(state, CastState::Idle);
    let requests = post_execute(&mut state, FinishedExecution);
    assert!(requests.is_none());
    assert_eq!(state, CastState::Idle);
}

#[test]
fn full_cast_round_damages_the_enemy() {
    let mut grid = grid_filled(GridTileColor::Blue);
    grid.set_tile_color(&Index::new(1, 1), GridTileColor::Green);
    let cards = vec![
        Card {
            kind: CardKind::River,
            index: 0,
            requirement: requirement(&[
                (0, 0, GridTileColor::Blue),
                (1, 0, GridTileColor::Blue),
                (2, 0, GridTileColor::Blue),
                (3, 0, GridTileColor::Blue),
                (4, 0, GridTileColor::Blue),
            ]),
        },
        Card {
            kind: CardKind::Crocodile,
            index: 1,
            requirement: requirement(&[(1, 1, GridTileColor::Green), (1, 2, GridTileColor::Green)]),
        },
    ];
    let mut state = CastState::Idle;
    assert!(start_cast(&mut state, StartCast).is_some());
    let mut pool = ActionMessagePool::new(0);
    execute_actions(&cards, &grid, &mut pool);
    assert_eq!(pool.pending.len(), 2);

    let mut health = Health(100);
    // the river card's five blue hits land first, at the trigger tick
    let (out, empty) = pool.tick(0);
    damage_enemy(&mut health, &out);
    assert_eq!(out, vec![ActionMessage::DamageEnemy(5)]);
    assert!(!empty);
    assert_eq!(health.0, 95);
    // the crocodile's single green hit lands one second later
    let (out, empty) = pool.tick(TICKS_PER_SECOND);
    damage_enemy(&mut health, &out);
    assert_eq!(out, vec![ActionMessage::DamageEnemy(1)]);
    assert!(empty);
    assert_eq!(health.0, 94);

    // the empty signal schedules the completion notice a second out
    finish_execution(&mut pool, ActionMessagePoolEmpty);
    let (out, empty) = pool.tick(TICKS_PER_SECOND);
    assert_eq!(out, vec![ActionMessage::FinishedExecution]);
    assert!(empty);
    damage_enemy(&mut health, &out);
    assert_eq!(health.0, 94);

    assert!(post_execute(&mut state, FinishedExecution).is_some());
    assert_eq!(state, CastState::Idle);
    grid.refresh();
    assert_eq!(grid.data.moves_made.len(), 0);
}

#[test]
fn score_accumulates_and_saturates() {
    let mut score = Score(0);
    score.add_points(7);
    score.add_points(5);
    assert_eq!(score.0, 12);
    let mut top = Score(u64::MAX - 1);
    top.add_points(10);
    assert_eq!(top.0, u64::MAX);
}
