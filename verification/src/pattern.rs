use vstd::prelude::*;

use crate::enemies::{enemies_len, enemy_at, enemy_seq};
use crate::game::{on_board, Game, GameState, Pos};

verus! {

/// An image for the 5x5 LED matrix: rows from the top, columns from the
/// left, 1 for a lit LED and 0 for a dark one.
pub type Pattern = [[u8; 5]; 5];

/// The rows of the model of a 5x5 LED matrix image.
pub open spec fn rows(p: Pattern) -> Seq<Seq<u8>> {
    p@.map_values(|r: [u8; 5]| r@)
}

/// The cell in column `x` and row `y` holds a piece of the game.
pub open spec fn lit(s: GameState, x: int, y: int) -> bool {
    let p = Pos { x: x as usize, y: y as usize };
    ||| s.player == p
    ||| s.enemies.contains(p)
    ||| s.bullet == Some(p)
}

/// The cell in column `x` and row `y` holds the ship or one of the first
/// `n` enemies.
pub open spec fn lit_before(s: GameState, n: int, x: int, y: int) -> bool {
    let p = Pos { x: x as usize, y: y as usize };
    ||| s.player == p
    ||| s.enemies.take(n).contains(p)
}

/// Lights the LED in column `x` and row `y`.
fn light(pattern: &mut Pattern, x: usize, y: usize)
    requires
        x < 5,
        y < 5,
    ensures
        forall|yy: int, xx: int|
            0 <= yy < 5 && 0 <= xx < 5 ==> #[trigger] final(pattern)@[yy]@[xx] == if yy == y && xx
                == x {
                1u8
            } else {
                old(pattern)@[yy]@[xx]
            },
{
    let mut row = pattern[y];
    row[x] = 1;
    pattern[y] = row;
}

/// The image of the game: a lit LED for the ship, for each enemy and for the
/// bullet.
pub fn render_game(game: &Game) -> (pattern: Pattern)
    requires
        game@.drawable(),
    ensures
        forall|y: int, x: int|
            0 <= y < 5 && 0 <= x < 5 ==> #[trigger] pattern@[y]@[x] == if lit(game@, x, y) {
                1u8
            } else {
                0u8
            },
{
    let ghost s = game@;
    let mut pattern = [[0u8; 5]; 5];

    light(&mut pattern, game.player.x, game.player.y);
    assert forall|y: int, x: int| 0 <= y < 5 && 0 <= x < 5 implies #[trigger] pattern@[y]@[x] == if lit_before(s, 0, x, y) {
        1u8
    } else {
        0u8
    } by {
        assert(s.enemies.take(0) =~= Seq::<Pos>::empty());
    }

    let n = enemies_len(&game.enemies);
    let mut i: usize = 0;
    while i < n
        invariant
            s == game@,
            s.drawable(),
            n == s.enemies.len(),
            i <= n,
            forall|y: int, x: int|
                0 <= y < 5 && 0 <= x < 5 ==> #[trigger] pattern@[y]@[x] == if lit_before(s, i as int, x, y) {
                    1u8
                } else {
                    0u8
                },
        decreases n - i,
    {
        let enemy = enemy_at(&game.enemies, i);
        assert(on_board(s.enemies[i as int]));
        let ghost prev = pattern;
        light(&mut pattern, enemy.x, enemy.y);
        assert forall|y: int, x: int| 0 <= y < 5 && 0 <= x < 5 implies #[trigger] pattern@[y]@[x] == if lit_before(s, i + 1, x, y) {
            1u8
        } else {
            0u8
        } by {
            let p = Pos { x: x as usize, y: y as usize };
            let t0 = s.enemies.take(i as int);
            let t1 = s.enemies.take(i + 1);
            assert(t1 =~= t0.push(enemy));
            if t0.contains(p) {
                let k = choose|k: int| 0 <= k < t0.len() && t0[k] == p;
                assert(t1[k] == p);
            }
            if t1.contains(p) && !t0.contains(p) {
                let k = choose|k: int| 0 <= k < t1.len() && t1[k] == p;
                if k < i {
                    assert(t0[k] == p);
                }
            }
            if p == enemy {
                assert(t1[i as int] == p);
            }
        }
        i = i + 1;
    }

    if let Some(bullet) = game.bullet {
        light(&mut pattern, bullet.x, bullet.y);
    }
    assert(s.enemies.take(n as int) =~= s.enemies);
    pattern
}

/// The image of the decimal digit `d`, drawn with lit LEDs; any other number
/// shows as the digit 0.
pub open spec fn digit_rows(d: usize) -> Seq<Seq<u8>> {
    match d {
        1 => seq![
            seq![0u8, 0, 1, 0, 0],
            seq![0u8, 0, 1, 0, 0],
            seq![0u8, 0, 1, 0, 0],
            seq![0u8, 0, 1, 0, 0],
            seq![0u8, 0, 1, 0, 0],
        ],
        2 => seq![
            seq![0u8, 1, 1, 1, 0],
            seq![1u8, 0, 0, 0, 1],
            seq![0u8, 0, 0, 1, 0],
            seq![0u8, 0, 1, 0, 0],
            seq![0u8, 1, 1, 1, 1],
        ],
        3 => seq![
            seq![0u8, 1, 1, 1, 0],
            seq![1u8, 0, 0, 0, 1],
            seq![0u8, 0, 0, 1, 0],
            seq![1u8, 0, 0, 0, 1],
            seq![0u8, 1, 1, 1, 0],
        ],
        4 => seq![
            seq![1u8, 0, 0, 0, 1],
            seq![1u8, 0, 0, 0, 1],
            seq![0u8, 1, 1, 1, 0],
            seq![0u8, 0, 0, 0, 1],
            seq![0u8, 0, 0, 0, 1],
        ],
        5 => seq![
            seq![0u8, 1, 1, 1, 0],
            seq![1u8, 0, 0, 0, 0],
            seq![0u8, 1, 1, 1, 0],
            seq![0u8, 0, 0, 0, 1],
            seq![0u8, 1, 1, 1, 0],
        ],
        6 => seq![
            seq![0u8, 1, 1, 1, 0],
            seq![1u8, 0, 0, 0, 0],
            seq![0u8, 1, 1, 1, 0],
            seq![1u8, 0, 0, 0, 1],
            seq![0u8, 1, 1, 1, 0],
        ],
        7 => seq![
            seq![0u8, 1, 1, 1, 1],
            seq![0u8, 0, 0, 0, 1],
            seq![0u8, 0, 0, 1, 0],
            seq![0u8, 0, 1, 0, 0],
            seq![0u8, 1, 0, 0, 0],
        ],
        8 => seq![
            seq![0u8, 1, 1, 1, 0],
            seq![1u8, 0, 0, 0, 1],
            seq![0u8, 1, 1, 1, 0],
            seq![1u8, 0, 0, 0, 1],
            seq![0u8, 1, 1, 1, 0],
        ],
        9 => seq![
            seq![0u8, 1, 1, 1, 0],
            seq![1u8, 0, 0, 0, 1],
            seq![0u8, 1, 1, 1, 0],
            seq![0u8, 0, 0, 0, 1],
            seq![0u8, 1, 1, 1, 0],
        ],
        _ => seq![
            seq![0u8, 1, 1, 1, 0],
            seq![1u8, 0, 0, 0, 1],
            seq![1u8, 0, 0, 0, 1],
            seq![1u8, 0, 0, 0, 1],
            seq![0u8, 1, 1, 1, 0],
        ],
    }
}

/// The image of a digit, for numbers from 0 to 9; any other number shows as
/// the digit 0.
pub fn index_to_pattern(index: usize) -> (pattern: Pattern)
    ensures
        rows(pattern) == digit_rows(index),
        rows_follow_font(rows(pattern), if index < 10 { index as int } else { 0 }),
{
    let pattern = match index {
        0 => [
            [0, 1, 1, 1, 0],
            [1, 0, 0, 0, 1],
            [1, 0, 0, 0, 1],
            [1, 0, 0, 0, 1],
            [0, 1, 1, 1, 0],
        ],
        1 => [
            [0, 0, 1, 0, 0],
            [0, 0, 1, 0, 0],
            [0, 0, 1, 0, 0],
            [0, 0, 1, 0, 0],
            [0, 0, 1, 0, 0],
        ],
        2 => [
            [0, 1, 1, 1, 0],
            [1, 0, 0, 0, 1],
            [0, 0, 0, 1, 0],
            [0, 0, 1, 0, 0],
            [0, 1, 1, 1, 1],
        ],
        3 => [
            [0, 1, 1, 1, 0],
            [1, 0, 0, 0, 1],
            [0, 0, 0, 1, 0],
            [1, 0, 0, 0, 1],
            [0, 1, 1, 1, 0],
        ],
        4 => [
            [1, 0, 0, 0, 1],
            [1, 0, 0, 0, 1],
            [0, 1, 1, 1, 0],
            [0, 0, 0, 0, 1],
            [0, 0, 0, 0, 1],
        ],
        5 => [
            [0, 1, 1, 1, 0],
            [1, 0, 0, 0, 0],
            [0, 1, 1, 1, 0],
            [0, 0, 0, 0, 1],
            [0, 1, 1, 1, 0],
        ],
        6 => [
            [0, 1, 1, 1, 0],
            [1, 0, 0, 0, 0],
            [0, 1, 1, 1, 0],
            [1, 0, 0, 0, 1],
            [0, 1, 1, 1, 0],
        ],
        7 => [
            [0, 1, 1, 1, 1],
            [0, 0, 0, 0, 1],
            [0, 0, 0, 1, 0],
            [0, 0, 1, 0, 0],
            [0, 1, 0, 0, 0],
        ],
        8 => [
            [0, 1, 1, 1, 0],
            [1, 0, 0, 0, 1],
            [0, 1, 1, 1, 0],
            [1, 0, 0, 0, 1],
            [0, 1, 1, 1, 0],
        ],
        9 => [
            [0, 1, 1, 1, 0],
            [1, 0, 0, 0, 1],
            [0, 1, 1, 1, 0],
            [0, 0, 0, 0, 1],
            [0, 1, 1, 1, 0],
        ],
        _ => [
            [0, 1, 1, 1, 0],
            [1, 0, 0, 0, 1],
            [1, 0, 0, 0, 1],
            [1, 0, 0, 0, 1],
            [0, 1, 1, 1, 0],
        ],
    };
    assert(rows(pattern) =~~= digit_rows(index));
    proof {
        lemma_digit_images_follow_font(index);
    }
    pattern
}

/// The image of a sad face.
pub open spec fn sad_face_rows() -> Seq<Seq<u8>> {
    seq![
        seq![0u8, 0, 0, 0, 0],
        seq![0u8, 1, 0, 1, 0],
        seq![0u8, 0, 0, 0, 0],
        seq![0u8, 1, 1, 1, 0],
        seq![1u8, 0, 0, 0, 1],
    ]
}

/// The image shown when the game is lost: a sad face.
pub fn sad_face_pattern() -> (pattern: Pattern)
    ensures
        rows(pattern) == sad_face_rows(),
{
    let pattern = [
        [0, 0, 0, 0, 0],
        [0, 1, 0, 1, 0],
        [0, 0, 0, 0, 0],
        [0, 1, 1, 1, 0],
        [1, 0, 0, 0, 1],
    ];
    assert(rows(pattern) =~~= sad_face_rows());
    pattern
}

/// An image with every LED off.
pub fn blank_pattern() -> (pattern: Pattern)
    ensures
        forall|y: int, x: int| 0 <= y < 5 && 0 <= x < 5 ==> #[trigger] pattern@[y]@[x] == 0u8,
{
    [[0; 5]; 5]
}

/// An image with every LED on.
pub fn full_pattern() -> (pattern: Pattern)
    ensures
        forall|y: int, x: int| 0 <= y < 5 && 0 <= x < 5 ==> #[trigger] pattern@[y]@[x] == 1u8,
{
    [[1; 5]; 5]
}


/// The row masks of the digit font, top row first: bit 4 is the leftmost
/// column, bit 0 the rightmost.
pub open spec fn digit_font(d: int) -> Seq<int> {
    if d == 1 {
        seq![4int, 4, 4, 4, 4]
    } else if d == 2 {
        seq![14int, 17, 2, 4, 15]
    } else if d == 3 {
        seq![14int, 17, 2, 17, 14]
    } else if d == 4 {
        seq![17int, 17, 14, 1, 1]
    } else if d == 5 {
        seq![14int, 16, 14, 1, 14]
    } else if d == 6 {
        seq![14int, 16, 14, 17, 14]
    } else if d == 7 {
        seq![15int, 1, 2, 4, 8]
    } else if d == 8 {
        seq![14int, 17, 14, 17, 14]
    } else if d == 9 {
        seq![14int, 17, 14, 1, 14]
    } else {
        seq![14int, 17, 17, 17, 14]
    }
}

/// Bit `4 - c` of the row mask `m`: whether column `c` is lit.
pub open spec fn mask_bit(m: int, c: int) -> int {
    if c == 0 {
        (m / 16) % 2
    } else if c == 1 {
        (m / 8) % 2
    } else if c == 2 {
        (m / 4) % 2
    } else if c == 3 {
        (m / 2) % 2
    } else {
        m % 2
    }
}

/// Law: the image of every number is the glyph of the digit font: the digit
/// itself from 0 to 9, the 0 for any other number. Each LED is lit exactly
/// where the font's row mask has its bit.
pub proof fn lemma_digit_images_follow_font(d: usize)
    ensures
        rows_follow_font(digit_rows(d), if d < 10 { d as int } else { 0 }),
{
}

/// The five rows of `r` are five columns wide and light exactly the bits of
/// the font's row masks for digit `d`.
pub open spec fn rows_follow_font(r: Seq<Seq<u8>>, d: int) -> bool {
    &&& r.len() == 5
    &&& forall|y: int| 0 <= y < 5 ==> (#[trigger] r[y]).len() == 5
    &&& forall|y: int, x: int|
        0 <= y < 5 && 0 <= x < 5 ==> #[trigger] r[y][x] == mask_bit(digit_font(d)[y], x)
}

} // verus!
