use micro_shooter::game::{Game, Pos};
use micro_shooter::pattern::{
    blank_pattern, full_pattern, index_to_pattern, render_game, sad_face_pattern,
};

#[test]
fn render_new_game() {
    let g = Game::new();
    let pat = render_game(&g);
    let mut expected = [[0u8; 5]; 5];
    expected[4][2] = 1;
    assert_eq!(pat, expected);
}

#[test]
fn render_all_pieces() {
    let mut g = Game::new();
    g.player = Pos { x: 0, y: 4 };
    g.enemies.push(Pos { x: 1, y: 0 }).unwrap();
    g.enemies.push(Pos { x: 4, y: 3 }).unwrap();
    g.enemies.push(Pos { x: 1, y: 0 }).unwrap();
    g.bullet = Some(Pos { x: 2, y: 2 });
    let pat = render_game(&g);
    assert_eq!(
        pat,
        [
            [0, 1, 0, 0, 0],
            [0, 0, 0, 0, 0],
            [0, 0, 1, 0, 0],
            [0, 0, 0, 0, 1],
            [1, 0, 0, 0, 0],
        ]
    );
}

#[test]
fn digits() {
    assert_eq!(
        index_to_pattern(0),
        [[0, 1, 1, 1, 0], [1, 0, 0, 0, 1], [1, 0, 0, 0, 1], [1, 0, 0, 0, 1], [0, 1, 1, 1, 0]]
    );
    assert_eq!(index_to_pattern(1), [[0, 0, 1, 0, 0]; 5]);
    assert_eq!(
        index_to_pattern(7),
        [[0, 1, 1, 1, 1], [0, 0, 0, 0, 1], [0, 0, 0, 1, 0], [0, 0, 1, 0, 0], [0, 1, 0, 0, 0]]
    );
    assert_eq!(
        index_to_pattern(9),
        [[0, 1, 1, 1, 0], [1, 0, 0, 0, 1], [0, 1, 1, 1, 0], [0, 0, 0, 0, 1], [0, 1, 1, 1, 0]]
    );
}

#[test]
fn other_numbers_show_zero() {
    assert_eq!(index_to_pattern(10), index_to_pattern(0));
    assert_eq!(index_to_pattern(usize::MAX), index_to_pattern(0));
}

#[test]
fn digits_differ() {
    for a in 0..10 {
        for b in 0..10 {
            assert_eq!(a == b, index_to_pattern(a) == index_to_pattern(b));
        }
    }
}

#[test]
fn fixed_images() {
    assert_eq!(blank_pattern(), [[0; 5]; 5]);
    assert_eq!(full_pattern(), [[1; 5]; 5]);
    assert_eq!(
        sad_face_pattern(),
        [[0, 0, 0, 0, 0], [0, 1, 0, 1, 0], [0, 0, 0, 0, 0], [0, 1, 1, 1, 0], [1, 0, 0, 0, 1]]
    );
}
