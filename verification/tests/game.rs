use micro_shooter::game::{action_for_buttons, effect_tone, Action, Effect, Game, Pos};
use micro_shooter::music::Hertz;

fn p(x: usize, y: usize) -> Pos {
    Pos { x, y }
}

fn game_with(enemies: &[Pos], bullet: Option<Pos>, counter: usize) -> Game {
    let mut g = Game::new();
    for e in enemies {
        g.enemies.push(*e).unwrap();
    }
    g.bullet = bullet;
    g.counter = counter;
    g
}

fn enemy_list(g: &Game) -> Vec<Pos> {
    g.enemies.iter().copied().collect()
}

#[test]
fn buttons_to_actions() {
    assert_eq!(action_for_buttons(false, false), None);
    assert_eq!(action_for_buttons(true, true), Some(Action::Shoot));
    assert_eq!(action_for_buttons(true, false), Some(Action::Left));
    assert_eq!(action_for_buttons(false, true), Some(Action::Right));
}

#[test]
fn new_game() {
    let g = Game::new();
    assert_eq!(g.player, p(2, 4));
    assert!(g.enemies.is_empty());
    assert_eq!(g.bullet, None);
    assert_eq!(g.counter, 0);
    assert_eq!(g.noise, 123);
    assert!(g.is_drawable());
}

#[test]
fn moving_left_and_right() {
    let mut g = Game::new();
    assert_eq!(g.apply_player_action(Action::Left), None);
    assert_eq!(g.player, p(1, 4));
    assert_eq!(g.noise, 124);
    g.apply_player_action(Action::Left);
    g.apply_player_action(Action::Left);
    assert_eq!(g.player, p(0, 4));
    assert_eq!(g.noise, 126);
    assert_eq!(g.apply_player_action(Action::Right), None);
    assert_eq!(g.player, p(1, 4));
    assert_eq!(g.noise, 131);
    for _ in 0..6 {
        g.apply_player_action(Action::Right);
    }
    assert_eq!(g.player, p(4, 4));
}

#[test]
fn shooting_keeps_one_bullet() {
    let mut g = Game::new();
    assert_eq!(g.apply_player_action(Action::Shoot), Some(Effect::SoundShoot));
    assert_eq!(g.bullet, Some(p(2, 4)));
    assert_eq!(g.noise, 136);
    g.apply_player_action(Action::Left);
    assert_eq!(g.apply_player_action(Action::Shoot), Some(Effect::SoundShoot));
    assert_eq!(g.bullet, Some(p(2, 4)));
}

#[test]
fn bullet_flies_up_and_leaves() {
    let mut g = game_with(&[], Some(p(3, 1)), 0);
    assert_eq!(g.tick(), None);
    assert_eq!(g.bullet, Some(p(3, 0)));
    assert_eq!(g.counter, 1);
    assert_eq!(g.tick(), None);
    assert_eq!(g.bullet, None);
}

#[test]
fn hit_removes_every_enemy_on_the_cell() {
    let mut g = game_with(&[p(2, 1), p(1, 3), p(2, 1), p(2, 0)], Some(p(2, 2)), 0);
    assert_eq!(g.tick(), Some(Effect::SoundHit));
    assert_eq!(g.bullet, None);
    assert_eq!(enemy_list(&g), vec![p(1, 3), p(2, 0)]);
}

#[test]
fn miss_keeps_enemies() {
    let mut g = game_with(&[p(2, 2), p(1, 1)], Some(p(2, 4)), 0);
    assert_eq!(g.tick(), None);
    assert_eq!(g.bullet, Some(p(2, 3)));
    assert_eq!(enemy_list(&g), vec![p(2, 2), p(1, 1)]);
}

#[test]
fn enemy_appears_every_19th_tick() {
    let mut g = game_with(&[], None, 17);
    g.tick();
    assert!(g.enemies.is_empty());
    g.tick();
    // (19 + 123) % 5 == 2
    assert_eq!(enemy_list(&g), vec![p(2, 0)]);
    g.noise = 4;
    for _ in 0..19 {
        g.tick();
    }
    // (38 + 4) % 5 == 2 again, next one at (57 + 4) % 5 == 1
    assert_eq!(g.counter, 38);
    assert_eq!(enemy_list(&g), vec![p(2, 0), p(2, 0)]);
}

#[test]
fn no_enemy_appears_when_full() {
    let full: Vec<Pos> = (0..25).map(|i| p(i % 5, 0)).collect();
    let mut g = game_with(&full, None, 18);
    assert_eq!(g.tick(), None);
    assert_eq!(g.enemies.len(), 25);
    assert_eq!(enemy_list(&g), full);
}

#[test]
fn enemies_move_down_every_49th_tick() {
    let mut g = game_with(&[p(0, 0), p(3, 2)], None, 47);
    assert_eq!(g.tick(), None);
    assert_eq!(enemy_list(&g), vec![p(0, 0), p(3, 2)]);
    assert_eq!(g.tick(), None);
    assert_eq!(enemy_list(&g), vec![p(0, 1), p(3, 3)]);
}

#[test]
fn game_over_stops_at_first_landing_enemy() {
    let mut g = game_with(&[p(0, 1), p(4, 3), p(1, 2), p(2, 3)], None, 48);
    assert_eq!(g.tick(), Some(Effect::GameOver));
    assert_eq!(enemy_list(&g), vec![p(0, 2), p(4, 4), p(1, 2), p(2, 3)]);
    assert!(g.is_drawable());
}

#[test]
fn game_over_beats_hit() {
    let mut g = game_with(&[p(1, 3), p(2, 2)], Some(p(2, 3)), 48);
    assert_eq!(g.tick(), Some(Effect::GameOver));
    assert_eq!(g.bullet, None);
    assert_eq!(enemy_list(&g), vec![p(1, 4)]);
}

#[test]
fn step_plays_action_sound_over_tick_sound() {
    let mut g = game_with(&[p(2, 2)], Some(p(2, 3)), 0);
    assert_eq!(g.step(Some(Action::Left)), Some(Effect::SoundHit));
    assert_eq!(g.player, p(1, 4));
    let mut g = game_with(&[p(2, 2)], Some(p(2, 3)), 0);
    assert_eq!(g.step(Some(Action::Shoot)), Some(Effect::SoundShoot));
    assert_eq!(g.bullet, Some(p(2, 4)));
    assert!(g.enemies.is_empty());
}

#[test]
fn step_restarts_after_game_over() {
    let mut g = game_with(&[p(0, 3)], None, 48);
    g.noise = 7;
    assert_eq!(g.step(Some(Action::Left)), Some(Effect::GameOver));
    assert_eq!(g.player, p(2, 4));
    assert!(g.enemies.is_empty());
    assert_eq!(g.counter, 0);
    assert_eq!(g.noise, 123);
}

#[test]
fn shooting_hides_game_over() {
    let mut g = game_with(&[p(0, 3)], None, 48);
    assert_eq!(g.step(Some(Action::Shoot)), Some(Effect::SoundShoot));
    assert_eq!(enemy_list(&g), vec![p(0, 4)]);
    assert_eq!(g.counter, 49);
}

#[test]
fn effect_tones() {
    assert_eq!(effect_tone(Effect::SoundShoot), Some(Hertz(659)));
    assert_eq!(effect_tone(Effect::SoundHit), Some(Hertz(440)));
    assert_eq!(effect_tone(Effect::GameOver), None);
}

#[test]
fn drawable_checks_every_piece() {
    let g = game_with(&[p(4, 4), p(0, 5)], None, 0);
    assert!(!g.is_drawable());
    let g = game_with(&[p(4, 4)], Some(p(5, 0)), 0);
    assert!(!g.is_drawable());
    let mut g = Game::new();
    g.player = p(7, 4);
    assert!(!g.is_drawable());
}

#[test]
fn long_play_stays_in_play_law() {
    // A scripted game without shooting in the rounds that end it stays
    // drawable, and every reported end of the game leaves a fresh game.
    let mut g = Game::new();
    let script = [None, Some(Action::Left), Some(Action::Shoot), Some(Action::Right), None];
    for round in 0..5000usize {
        let action = script[round % script.len()];
        let mut probe = Game::new();
        probe.player = g.player;
        probe.bullet = g.bullet;
        probe.counter = g.counter;
        probe.noise = g.noise;
        for e in g.enemies.iter() {
            probe.enemies.push(*e).unwrap();
        }
        let tick_sound = probe.tick();
        let action = if tick_sound == Some(Effect::GameOver) && action == Some(Action::Shoot) {
            None
        } else {
            action
        };
        let sound = g.step(action);
        assert!(g.is_drawable());
        assert_eq!(g.player.y, 4);
        assert!(g.enemies.iter().all(|e| e.y < 4));
        if sound == Some(Effect::GameOver) {
            assert_eq!(g.counter, 0);
            assert!(g.enemies.is_empty());
        }
    }
}
