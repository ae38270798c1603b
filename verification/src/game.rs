use vstd::prelude::*;

use crate::music::Hertz;
use crate::enemies::{
    enemies_len, enemies_new, enemies_push, enemies_remove_all, enemy_at, enemy_seq, enemy_set,
};

verus! {

/// A cell of the 5x5 board: column `x`, row `y` (row 0 is the top).
#[derive(Clone, Copy, Debug, PartialEq, Eq, Structural)]
pub struct Pos {
    pub x: usize,
    pub y: usize,
}

/// What the player asked for with the two buttons.
#[derive(Clone, Copy, Debug, PartialEq, Eq, Structural)]
pub enum Action {
    Left,
    Right,
    Shoot,
}

/// Something the game wants heard.
#[derive(Clone, Copy, Debug, PartialEq, Eq, Structural)]
pub enum Effect {
    SoundShoot,
    SoundHit,
    GameOver,
}

/// The state of one game: the player's ship on the bottom row, the enemies
/// coming down, at most one bullet flying up, a tick counter and a number
/// that the player's button presses stir, from which new enemies take their
/// column.
pub struct Game {
    pub player: Pos,
    pub enemies: heapless::Vec<Pos, 25>,
    pub bullet: Option<Pos>,
    pub counter: usize,
    pub noise: usize,
}

/// The mathematical model of a game.
pub struct GameState {
    pub player: Pos,
    pub enemies: Seq<Pos>,
    pub bullet: Option<Pos>,
    pub counter: usize,
    pub noise: usize,
}

impl View for Game {
    type V = GameState;

    open spec fn view(&self) -> GameState {
        GameState {
            player: self.player,
            enemies: enemy_seq(self.enemies),
            bullet: self.bullet,
            counter: self.counter,
            noise: self.noise,
        }
    }
}

/// `true` when the position lies on the 5x5 board.
pub open spec fn on_board(p: Pos) -> bool {
    p.x < 5 && p.y < 5
}

/// The position one row lower.
pub open spec fn lowered(p: Pos) -> Pos {
    Pos { x: p.x, y: (p.y + 1) as usize }
}

impl GameState {
    /// Every piece stands on the board, so the game can be drawn.
    pub open spec fn drawable(self) -> bool {
        &&& on_board(self.player)
        &&& forall|i: int| 0 <= i < self.enemies.len() ==> on_board(#[trigger] self.enemies[i])
        &&& (self.bullet matches Some(b) ==> on_board(b))
    }

    /// A game in progress: the ship on the bottom row, the bullet on the
    /// board, the enemies in their columns and above the bottom row, and no
    /// more of them than the vector holds.
    pub open spec fn wf(self) -> bool {
        &&& self.player.x < 5
        &&& self.player.y == 4
        &&& (self.bullet matches Some(b) ==> on_board(b))
        &&& self.enemies.len() <= 25
        &&& forall|i: int|
            0 <= i < self.enemies.len() ==> (#[trigger] self.enemies[i]).x < 5
                && self.enemies[i].y < 4
    }
}

/// The state of a fresh game.
pub open spec fn new_state() -> GameState {
    GameState {
        player: Pos { x: 2, y: 4 },
        enemies: Seq::empty(),
        bullet: None,
        counter: 0,
        noise: 123,
    }
}

/// How much each action stirs the noise.
pub open spec fn action_noise(action: Action) -> usize {
    match action {
        Action::Left => 1,
        Action::Right => 5,
        Action::Shoot => 13,
    }
}

/// The sound an action makes.
pub open spec fn action_sound(action: Action) -> Option<Effect> {
    match action {
        Action::Shoot => Some(Effect::SoundShoot),
        _ => None,
    }
}

/// The game after the player's action: the ship moves one column left or
/// right, staying on the board, or a bullet leaves the ship when none is in
/// flight; the noise grows by the action's amount.
pub open spec fn after_action(s: GameState, action: Action) -> GameState {
    let player = match action {
        Action::Left => if s.player.x > 0 {
            Pos { x: (s.player.x - 1) as usize, y: s.player.y }
        } else {
            s.player
        },
        Action::Right => if s.player.x < 4 {
            Pos { x: (s.player.x + 1) as usize, y: s.player.y }
        } else {
            s.player
        },
        Action::Shoot => s.player,
    };
    let bullet = match action {
        Action::Shoot => if s.bullet is None {
            Some(s.player)
        } else {
            s.bullet
        },
        _ => s.bullet,
    };
    GameState { player, bullet, noise: (s.noise + action_noise(action)) as usize, ..s }
}

/// What the bullet does in one tick: it leaves the board from the top row;
/// otherwise it moves up one row, and where an enemy stands on its new cell
/// the bullet and every enemy on that cell are gone and a hit is heard.
pub open spec fn shot_outcome(enemies: Seq<Pos>, bullet: Option<Pos>) -> (Seq<Pos>, Option<Pos>, Option<Effect>) {
    match bullet {
        None => (enemies, None, None),
        Some(b) => if b.y == 0 {
            (enemies, None, None)
        } else {
            let target = Pos { x: b.x, y: (b.y - 1) as usize };
            if enemies.contains(target) {
                (enemies.filter(|e: Pos| e != target), None, Some(Effect::SoundHit))
            } else {
                (enemies, Some(target), None)
            }
        },
    }
}

/// The column in which a new enemy appears at tick `counter`.
pub open spec fn spawn_column(counter: usize, noise: usize) -> usize {
    ((counter + noise) % 5) as usize
}

/// The enemies after the spawning step of tick `counter`: every 19th tick a
/// new enemy appears in the top row, unless 25 are already there.
pub open spec fn spawned(enemies: Seq<Pos>, counter: usize, noise: usize) -> Seq<Pos> {
    if counter % 19 == 0 && enemies.len() < 25 {
        enemies.push(Pos { x: spawn_column(counter, noise), y: 0 })
    } else {
        enemies
    }
}

/// The index, from `i` on, of the first enemy that one step down brings to
/// the bottom row, or the number of enemies where there is none.
pub open spec fn landing_index(s: Seq<Pos>, i: nat) -> nat
    decreases s.len() - i,
{
    if i >= s.len() {
        s.len()
    } else if s[i as int].y >= 3 {
        i
    } else {
        landing_index(s, i + 1)
    }
}

/// `true` when a step down brings an enemy to the bottom row.
pub open spec fn lands(s: Seq<Pos>) -> bool {
    landing_index(s, 0) < s.len()
}

/// The enemies after a step down: each moves one row lower, in order, up to
/// and including the first that reaches the bottom row; the game ends there
/// and those after it stay where they were.
pub open spec fn descended(s: Seq<Pos>) -> Seq<Pos> {
    Seq::new(
        s.len(),
        |j: int|
            if j <= landing_index(s, 0) {
                lowered(s[j])
            } else {
                s[j]
            },
    )
}

/// The enemies just before the step down of the tick that follows `s`.
pub open spec fn enemies_before_descent(s: GameState) -> Seq<Pos> {
    let counter = (s.counter + 1) as usize;
    spawned(shot_outcome(s.enemies, s.bullet).0, counter, s.noise)
}

/// Tick `counter` moves the enemies down: every 49th tick.
pub open spec fn descends(counter: usize) -> bool {
    counter % 49 == 0
}

/// One tick of the game, with the sound it makes: the counter advances, the
/// bullet moves, an enemy may appear and the enemies may move down; the game
/// is over when an enemy reaches the bottom row.
pub open spec fn tick_spec(s: GameState) -> (GameState, Option<Effect>) {
    let counter = (s.counter + 1) as usize;
    let shot = shot_outcome(s.enemies, s.bullet);
    let before = spawned(shot.0, counter, s.noise);
    let enemies = if descends(counter) {
        descended(before)
    } else {
        before
    };
    let over = descends(counter) && lands(before);
    (
        GameState { enemies, bullet: shot.1, counter, ..s },
        if over {
            Some(Effect::GameOver)
        } else {
            shot.2
        },
    )
}

/// The arithmetic of a tick stays within `usize`: the counter can advance,
/// the spawn column can be computed, and the rows of the enemies that move
/// down can grow.
pub open spec fn tick_fits(s: GameState) -> bool {
    let counter = s.counter + 1;
    let before = enemies_before_descent(s);
    &&& s.counter < usize::MAX
    &&& counter % 19 == 0 ==> counter + s.noise <= usize::MAX
    &&& descends(counter as usize) && lands(before) ==> before[landing_index(before, 0) as int].y < usize::MAX
}

/// One round of the main loop: a tick, then the player's action, if any. The
/// action's sound wins over the tick's. When the game is over a fresh game
/// takes its place.
pub open spec fn step_spec(s: GameState, action: Option<Action>) -> (GameState, Option<Effect>) {
    let t = tick_spec(s);
    let (after, sound) = match action {
        None => (t.0, t.1),
        Some(a) => (
            after_action(t.0, a),
            if action_sound(a) is Some {
                action_sound(a)
            } else {
                t.1
            },
        ),
    };
    if sound == Some(Effect::GameOver) {
        (new_state(), sound)
    } else {
        (after, sound)
    }
}

/// The action that the two buttons ask for: both pressed shoot, A alone
/// moves left, B alone moves right.
pub open spec fn button_action(a_pressed: bool, b_pressed: bool) -> Option<Action> {
    if a_pressed && b_pressed {
        Some(Action::Shoot)
    } else if a_pressed {
        Some(Action::Left)
    } else if b_pressed {
        Some(Action::Right)
    } else {
        None
    }
}

/// The action asked for by the buttons, given whether A and whether B is
/// pressed.
pub fn action_for_buttons(a_pressed: bool, b_pressed: bool) -> (action: Option<Action>)
    ensures
        action == button_action(a_pressed, b_pressed),
{
    match (a_pressed, b_pressed) {
        (false, false) => None,
        (true, true) => Some(Action::Shoot),
        (false, true) => Some(Action::Right),
        (true, false) => Some(Action::Left),
    }
}

/// `true` when the two positions differ.
pub fn pos_differs(a: &Pos, b: &Pos) -> (r: bool)
    ensures
        r == (*a != *b),
{
    a.x != b.x || a.y != b.y
}

/// Whether some enemy stands on `p`.
fn occupied(enemies: &heapless::Vec<Pos, 25>, p: Pos) -> (r: bool)
    ensures
        r == enemy_seq(*enemies).contains(p),
{
    let n = enemies_len(enemies);
    let mut i: usize = 0;
    while i < n
        invariant
            n == enemy_seq(*enemies).len(),
            i <= n,
            forall|j: int| 0 <= j < i ==> enemy_seq(*enemies)[j] != p,
        decreases n - i,
    {
        let e = enemy_at(enemies, i);
        if e.x == p.x && e.y == p.y {
            return true;
        }
        i = i + 1;
    }
    false
}

/// The tone the speaker plays for an effect: a shot at 659 Hz, a hit at
/// 440 Hz; the end of the game plays a melody instead.
pub fn effect_tone(effect: Effect) -> (tone: Option<Hertz>)
    ensures
        tone == match effect {
            Effect::SoundShoot => Some(Hertz(659)),
            Effect::SoundHit => Some(Hertz(440)),
            Effect::GameOver => None::<Hertz>,
        },
{
    match effect {
        Effect::SoundShoot => Some(Hertz(659)),
        Effect::SoundHit => Some(Hertz(440)),
        Effect::GameOver => None,
    }
}

impl Game {
    /// Whether every piece of the game stands on the board, so that it can
    /// be drawn.
    pub fn is_drawable(&self) -> (r: bool)
        ensures
            r == self@.drawable(),
    {
        if !(self.player.x < 5 && self.player.y < 5) {
            return false;
        }
        if let Some(b) = self.bullet {
            if !(b.x < 5 && b.y < 5) {
                return false;
            }
        }
        let n = enemies_len(&self.enemies);
        let mut i: usize = 0;
        while i < n
            invariant
                n == self@.enemies.len(),
                i <= n,
                forall|j: int| 0 <= j < i ==> on_board(#[trigger] self@.enemies[j]),
            decreases n - i,
        {
            let e = enemy_at(&self.enemies, i);
            if !(e.x < 5 && e.y < 5) {
                return false;
            }
            i = i + 1;
        }
        true
    }
}

/// A round of the main loop on a drawable game stays within `usize`: the
/// counter can advance, the spawn column can be computed and the action's
/// noise can be added.
pub open spec fn round_fits(s: GameState, action: Option<Action>) -> bool {
    &&& s.drawable()
    &&& s.counter < usize::MAX
    &&& (s.counter + 1) % 19 == 0 ==> s.counter + 1 + s.noise <= usize::MAX
    &&& (action matches Some(a) ==> s.noise + action_noise(a) <= usize::MAX)
}

/// The game lies on the board, so the rows of the enemies that move down
/// cannot overflow.
proof fn lemma_drawable_descent_fits(s: GameState)
    requires
        s.drawable(),
        s.counter < usize::MAX,
    ensures
        ({
            let before = enemies_before_descent(s);
            lands(before) ==> before[landing_index(before, 0) as int].y < usize::MAX
        }),
{
    let shot = shot_outcome(s.enemies, s.bullet);
    let before = enemies_before_descent(s);
    lemma_landing_bounds(before, 0);
    if lands(before) {
        let k = landing_index(before, 0) as int;
        if k < shot.0.len() {
            if let Some(b) = s.bullet {
                if b.y != 0 {
                    let target = Pos { x: b.x, y: (b.y - 1) as usize };
                    if s.enemies.contains(target) {
                        lemma_filter_from(s.enemies, target, k);
                        let j = choose|j: int| 0 <= j < s.enemies.len() && s.enemies[j] == before[k];
                        assert(on_board(s.enemies[j]));
                    }
                }
            }
            if shot.0 == s.enemies {
                assert(on_board(s.enemies[k]));
            }
        }
    }
}

impl Game {
    /// Whether a round of the main loop can run on this game: it can be
    /// drawn, and the round's arithmetic stays within `usize`.
    pub fn round_fits(&self, action: Option<Action>) -> (r: bool)
        ensures
            r == round_fits(self@, action),
            r ==> tick_fits(self@),
    {
        if !self.is_drawable() {
            return false;
        }
        if self.counter == usize::MAX {
            return false;
        }
        let next = self.counter + 1;
        if next % 19 == 0 && self.noise > usize::MAX - next {
            return false;
        }
        let extra: usize = match action {
            None => 0,
            Some(Action::Left) => 1,
            Some(Action::Right) => 5,
            Some(Action::Shoot) => 13,
        };
        if self.noise > usize::MAX - extra {
            return false;
        }
        proof {
            lemma_drawable_descent_fits(self@);
        }
        true
    }
}

/// Where every enemy before index `i` stays above row 3, the first enemy
/// that a step down lands is the first from `i` on.
proof fn lemma_landing_from(s: Seq<Pos>, k: nat, i: nat)
    requires
        k <= i <= s.len(),
        forall|j: int| k <= j < i ==> (#[trigger] s[j]).y < 3,
    ensures
        landing_index(s, k) == landing_index(s, i),
    decreases i - k,
{
    if k < i {
        lemma_landing_from(s, k + 1, i);
    }
}

/// The first landing enemy from `i` on, if any, is at or after `i`, and the
/// enemies between `i` and it stay above row 3.
proof fn lemma_landing_bounds(s: Seq<Pos>, i: nat)
    requires
        i <= s.len(),
    ensures
        i <= landing_index(s, i) <= s.len(),
        landing_index(s, i) < s.len() ==> s[landing_index(s, i) as int].y >= 3,
        forall|j: int| i <= j < landing_index(s, i) ==> (#[trigger] s[j]).y < 3,
    decreases s.len() - i,
{
    if i < s.len() && s[i as int].y < 3 {
        lemma_landing_bounds(s, i + 1);
    }
}

impl Game {
    /// A fresh game: the ship in the middle of the bottom row, no enemies,
    /// no bullet.
    pub fn new() -> (game: Game)
        ensures
            game@ == new_state(),
            game@.wf(),
    {
        Game {
            player: Pos { x: 2, y: 4 },
            enemies: enemies_new(),
            bullet: None,
            counter: 0,
            noise: 123,
        }
    }

    /// Applies the player's action and returns the sound it makes.
    pub fn apply_player_action(&mut self, action: Action) -> (sound: Option<Effect>)
        requires
            old(self).noise + action_noise(action) <= usize::MAX,
        ensures
            final(self)@ == after_action(old(self)@, action),
            sound == action_sound(action),
    {
        let mut sound = None;
        match action {
            Action::Left => {
                if self.player.x > 0 {
                    self.player.x = self.player.x - 1;
                }
                self.noise = self.noise + 1;
            },
            Action::Right => {
                if self.player.x < 4 {
                    self.player.x = self.player.x + 1;
                }
                self.noise = self.noise + 5;
            },
            Action::Shoot => {
                if self.bullet.is_none() {
                    self.bullet = Some(Pos { x: self.player.x, y: self.player.y });
                }
                self.noise = self.noise + 13;
                sound = Some(Effect::SoundShoot);
            },
        }
        sound
    }

    /// Advances the game by one tick and returns the sound it makes.
    pub fn tick(&mut self) -> (sound: Option<Effect>)
        requires
            tick_fits(old(self)@),
        ensures
            (final(self)@, sound) == tick_spec(old(self)@),
    {
        let ghost s0 = self@;
        self.counter = self.counter + 1;
        let mut sound = None;

        if let Some(bullet) = self.bullet {
            if bullet.y == 0 {
                self.bullet = None;
            } else {
                let y = bullet.y - 1;
                let x = bullet.x;
                self.bullet = Some(Pos { x, y });

                if occupied(&self.enemies, Pos { x, y }) {
                    enemies_remove_all(&mut self.enemies, Pos { x, y });
                    self.bullet = None;
                    sound = Some(Effect::SoundHit);
                }
            }
        }

        if self.counter % 19 == 0 {
            let x = (self.counter + self.noise) % 5;
            let _old = enemies_push(&mut self.enemies, Pos { x: x, y: 0 });
        }
        let ghost before = enemy_seq(self.enemies);
        assert(before == enemies_before_descent(s0));

        if self.counter % 49 == 0 {
            let n = enemies_len(&self.enemies);
            let mut i: usize = 0;
            proof {
                lemma_landing_bounds(before, 0);
            }
            while i < n
                invariant
                    n == before.len(),
                    i <= n,
                    forall|j: int| 0 <= j < i ==> (#[trigger] before[j]).y < 3,
                    i <= landing_index(before, 0),
                    landing_index(before, 0) <= n,
                    landing_index(before, 0) < n ==> before[landing_index(before, 0) as int].y
                        < usize::MAX,
                    landing_index(before, 0) < n ==> before[landing_index(before, 0) as int].y >= 3,
                    forall|j: int| 0 <= j < landing_index(before, 0) ==> (#[trigger] before[j]).y < 3,
                    enemy_seq(self.enemies) == Seq::new(
                        n as nat,
                        |j: int|
                            if j < i {
                                lowered(before[j])
                            } else {
                                before[j]
                            },
                    ),
                    before == enemies_before_descent(s0),
                    s0 == old(self)@,
                    self.counter == s0.counter + 1,
                    self.counter % 49 == 0,
                    self.player == s0.player,
                    self.noise == s0.noise,
                    self.bullet == shot_outcome(s0.enemies, s0.bullet).1,
                decreases n - i,
            {
                let enemy = enemy_at(&self.enemies, i);
                assert(enemy == before[i as int]);
                let y = enemy.y + 1;
                enemy_set(&mut self.enemies, i, Pos { x: enemy.x, y });
                if y >= 4 {
                    assert(landing_index(before, 0) == i);
                    assert(enemy_seq(self.enemies) =~= descended(before));
                    return Some(Effect::GameOver);
                }
                i = i + 1;
            }
            assert(landing_index(before, 0) == n);
            assert(enemy_seq(self.enemies) =~= descended(before));
        }

        sound
    }

    /// One round of the main loop: a tick, then the player's action, if any.
    /// The action's sound wins over the tick's; when the game is over, a
    /// fresh game takes its place.
    pub fn step(&mut self, action: Option<Action>) -> (sound: Option<Effect>)
        requires
            tick_fits(old(self)@),
            action matches Some(a) ==> old(self).noise + action_noise(a) <= usize::MAX,
        ensures
            (final(self)@, sound) == step_spec(old(self)@, action),
    {
        let mut sound = self.tick();

        if let Some(action) = action {
            let maybe_another_sound = self.apply_player_action(action);
            if maybe_another_sound.is_some() {
                sound = maybe_another_sound;
            }
        }

        if let Some(Effect::GameOver) = sound {
            *self = Game::new();
        }
        sound
    }
}

/// Every item of a filtered sequence comes from the sequence.
proof fn lemma_filter_from(s: Seq<Pos>, t: Pos, i: int)
    requires
        0 <= i < s.filter(|e: Pos| e != t).len(),
    ensures
        s.contains(s.filter(|e: Pos| e != t)[i]),
        s.filter(|e: Pos| e != t)[i] != t,
{
    let f = s.filter(|e: Pos| e != t);
    broadcast use Seq::lemma_filter_contains_rev, Seq::lemma_filter_pred;
    assert(f.contains(f[i]));
}

/// Removing every copy of a position that occurs removes at least one item.
proof fn lemma_filter_shrinks(s: Seq<Pos>, t: Pos)
    requires
        s.contains(t),
    ensures
        s.filter(|e: Pos| e != t).len() < s.len(),
    decreases s.len(),
{
    reveal(Seq::filter);
    broadcast use Seq::lemma_filter_len;
    let rest = s.drop_last();
    if s.last() == t {
        assert(s.filter(|e: Pos| e != t) == rest.filter(|e: Pos| e != t));
    } else {
        let k = choose|k: int| 0 <= k < s.len() && s[k] == t;
        assert(rest[k] == t);
        lemma_filter_shrinks(rest, t);
    }
}

/// Law: the player's action keeps a game in progress in progress: the ship
/// stays on the bottom row within the board, and a new bullet starts on the
/// ship's cell.
pub proof fn lemma_action_keeps_wf(s: GameState, action: Action)
    requires
        s.wf(),
    ensures
        after_action(s, action).wf(),
{
}

/// Law: a hit removes the bullet and every enemy on the cell it entered, so
/// that fewer enemies remain.
pub proof fn lemma_hit_clears_cell(enemies: Seq<Pos>, bullet: Option<Pos>)
    requires
        shot_outcome(enemies, bullet).2 == Some(Effect::SoundHit),
    ensures
        bullet matches Some(b) && b.y > 0 && {
            let target = Pos { x: b.x, y: (b.y - 1) as usize };
            &&& enemies.contains(target)
            &&& !shot_outcome(enemies, bullet).0.contains(target)
            &&& shot_outcome(enemies, bullet).0.len() < enemies.len()
            &&& shot_outcome(enemies, bullet).1 is None
        },
{
    let b = bullet->0;
    let target = Pos { x: b.x, y: (b.y - 1) as usize };
    let f = enemies.filter(|e: Pos| e != target);
    lemma_filter_shrinks(enemies, target);
    if f.contains(target) {
        let k = choose|k: int| 0 <= k < f.len() && f[k] == target;
        lemma_filter_from(enemies, target, k);
    }
}

/// Law: in a game in progress the rows of the enemies never overflow when
/// they move down, so a tick fits in `usize` as soon as the counter and the
/// spawn column do.
pub proof fn lemma_wf_tick_fits(s: GameState)
    requires
        s.wf(),
        s.counter < usize::MAX,
        (s.counter + 1) % 19 == 0 ==> s.counter + 1 + s.noise <= usize::MAX,
    ensures
        tick_fits(s),
{
    let before = enemies_before_descent(s);
    lemma_tick_enemies_in_play(s);
    lemma_landing_bounds(before, 0);
}

/// The enemies just before a step down stand in their columns above the
/// bottom row, and there are at most 25 of them.
proof fn lemma_tick_enemies_in_play(s: GameState)
    requires
        s.wf(),
    ensures
        enemies_before_descent(s).len() <= 25,
        forall|i: int|
            0 <= i < enemies_before_descent(s).len() ==> (#[trigger] enemies_before_descent(s)[i]).x
                < 5 && enemies_before_descent(s)[i].y < 4,
{
    let shot = shot_outcome(s.enemies, s.bullet);
    broadcast use Seq::lemma_filter_len;
    assert forall|i: int| 0 <= i < shot.0.len() implies (#[trigger] shot.0[i]).x < 5 && shot.0[i].y < 4 by {
        if let Some(b) = s.bullet {
            if b.y != 0 {
                let target = Pos { x: b.x, y: (b.y - 1) as usize };
                if s.enemies.contains(target) {
                    lemma_filter_from(s.enemies, target, i);
                }
            }
        }
    }
}

/// Law: a tick keeps a game in progress in progress unless it ends the
/// game; either way every piece stays on the board, so the game can be
/// drawn.
pub proof fn lemma_tick_keeps_wf(s: GameState)
    requires
        s.wf(),
        tick_fits(s),
    ensures
        tick_spec(s).0.drawable(),
        tick_spec(s).1 != Some(Effect::GameOver) ==> tick_spec(s).0.wf(),
{
    let counter = (s.counter + 1) as usize;
    let before = enemies_before_descent(s);
    lemma_tick_enemies_in_play(s);
    lemma_landing_bounds(before, 0);
    let t = tick_spec(s).0;
    if descends(counter) {
        let d = descended(before);
        assert forall|i: int| 0 <= i < d.len() implies (#[trigger] d[i]).x < 5 && d[i].y < 5 && (
        !lands(before) ==> d[i].y < 4) by {
            assert(before[i].y < 4);
        }
    }
}

/// Law: a round of the main loop keeps a game in progress in progress,
/// unless the tick ends the game and the player shoots in the same round:
/// the shot's sound then replaces the end of the game and the game goes on
/// with an enemy on the bottom row.
pub proof fn lemma_step_keeps_wf(s: GameState, action: Option<Action>)
    requires
        s.wf(),
        tick_fits(s),
        !(tick_spec(s).1 == Some(Effect::GameOver) && action == Some(Action::Shoot)),
    ensures
        step_spec(s, action).0.wf(),
{
    lemma_tick_keeps_wf(s);
    let t = tick_spec(s);
    if t.1 != Some(Effect::GameOver) {
        if let Some(a) = action {
            lemma_action_keeps_wf(t.0, a);
        }
    }
}

/// Law: a round that reports the end of the game leaves a fresh game.
pub proof fn lemma_game_over_restarts(s: GameState, action: Option<Action>)
    requires
        step_spec(s, action).1 == Some(Effect::GameOver),
    ensures
        step_spec(s, action).0 == new_state(),
        new_state().wf(),
{
}

/// Law: every tick advances the counter by one and leaves the ship and the
/// noise where they were.
pub proof fn lemma_tick_counts(s: GameState)
    requires
        s.counter < usize::MAX,
    ensures
        tick_spec(s).0.counter == s.counter + 1,
        tick_spec(s).0.player == s.player,
        tick_spec(s).0.noise == s.noise,
{
}

/// Law: the buttons decide the action alone: every pair of button states
/// gives exactly one answer, and only both buttons together shoot.
pub proof fn lemma_buttons_shoot_together(a_pressed: bool, b_pressed: bool)
    ensures
        (button_action(a_pressed, b_pressed) == Some(Action::Shoot)) == (a_pressed && b_pressed),
        (button_action(a_pressed, b_pressed) is None) == (!a_pressed && !b_pressed),
{
}

/// Law: what each action does to the ship, the bullet and the noise. A move
/// shifts the ship by exactly one column, unless that would leave the board,
/// and touches neither the bullet nor the enemies; a shot with no bullet in
/// flight puts the bullet on the ship's cell, wherever the ship is, and a
/// shot with a bullet in flight leaves it alone. Every action stirs the
/// noise and only a shot is heard.
pub proof fn lemma_action_effects(s: GameState, action: Action)
    requires
        s.noise + action_noise(action) <= usize::MAX,
    ensures
        after_action(s, action).player.y == s.player.y,
        after_action(s, action).enemies == s.enemies,
        after_action(s, action).counter == s.counter,
        after_action(s, action).noise > s.noise,
        action == Action::Left ==> after_action(s, action).noise == s.noise + 1,
        action == Action::Right ==> after_action(s, action).noise == s.noise + 5,
        action == Action::Shoot ==> after_action(s, action).noise == s.noise + 13,
        action == Action::Left ==> after_action(s, action).bullet == s.bullet && if s.player.x
            == 0 {
            after_action(s, action).player.x == 0
        } else {
            after_action(s, action).player.x + 1 == s.player.x
        },
        action == Action::Right ==> after_action(s, action).bullet == s.bullet && if s.player.x
            >= 4 {
            after_action(s, action).player.x == s.player.x
        } else {
            after_action(s, action).player.x == s.player.x + 1
        },
        action == Action::Shoot ==> after_action(s, action).player == s.player,
        action == Action::Shoot && s.bullet is None ==> after_action(s, action).bullet == Some(
            s.player,
        ),
        action == Action::Shoot && s.bullet is Some ==> after_action(s, action).bullet == s.bullet,
        (action_sound(action) == Some(Effect::SoundShoot)) == (action == Action::Shoot),
        action != Action::Shoot ==> action_sound(action) is None,
{
}

/// Law: a bullet that enters a cell holding an enemy, in any row, hits: the
/// hit is heard, the bullet is gone and no enemy is left on that cell.
/// Every bullet that leaves the top row, or finds its cell empty, misses:
/// nothing is heard, no enemy is removed, and the bullet, if still on the
/// board, stands one row higher in its column.
pub proof fn lemma_shot_hits_exactly_occupied_cells(enemies: Seq<Pos>, bullet: Option<Pos>)
    ensures
        bullet matches Some(b) ==> b.y > 0 && enemies.contains(Pos { x: b.x, y: (b.y - 1) as usize }) ==> {
            let target = Pos { x: b.x, y: (b.y - 1) as usize };
            &&& shot_outcome(enemies, bullet).2 == Some(Effect::SoundHit)
            &&& shot_outcome(enemies, bullet).1 is None
            &&& !shot_outcome(enemies, bullet).0.contains(target)
            &&& shot_outcome(enemies, bullet).0.len() < enemies.len()
            &&& forall|e: Pos| e != target ==> (shot_outcome(enemies, bullet).0.contains(e) <==> enemies.contains(e))
        },
        bullet matches Some(b) ==> b.y > 0 && !enemies.contains(Pos { x: b.x, y: (b.y - 1) as usize }) ==> {
            &&& shot_outcome(enemies, bullet).2 is None
            &&& shot_outcome(enemies, bullet).1 == Some(Pos { x: b.x, y: (b.y - 1) as usize })
            &&& shot_outcome(enemies, bullet).0 == enemies
        },
        bullet matches Some(b) && b.y == 0 ==> shot_outcome(enemies, bullet) == (enemies, None::<Pos>, None::<Effect>),
        bullet is None ==> shot_outcome(enemies, bullet) == (enemies, None::<Pos>, None::<Effect>),
{
    if let Some(b) = bullet {
        if b.y > 0 {
            let target = Pos { x: b.x, y: (b.y - 1) as usize };
            if enemies.contains(target) {
                lemma_hit_clears_cell(enemies, bullet);
                let f = enemies.filter(|e: Pos| e != target);
                assert forall|e: Pos| e != target implies (f.contains(e) <==> enemies.contains(e)) by {
                    if f.contains(e) {
                        let k = choose|k: int| 0 <= k < f.len() && f[k] == e;
                        lemma_filter_from(enemies, target, k);
                    }
                    if enemies.contains(e) {
                        let k = choose|k: int| 0 <= k < enemies.len() && enemies[k] == e;
                        broadcast use Seq::lemma_filter_contains;
                        assert(f.contains(enemies[k]));
                    }
                }
            }
        }
    }
}

/// Law: a tick moves the bullet of the game as a shot does: a bullet entering
/// an enemy's cell, in any row, leaves the game without a bullet and with a
/// hit heard, unless the same tick ends the game; a bullet entering an empty
/// cell stands there afterwards.
pub proof fn lemma_tick_moves_bullet(s: GameState)
    requires
        s.counter < usize::MAX,
    ensures
        s.bullet matches Some(b) ==> b.y > 0 && s.enemies.contains(Pos { x: b.x, y: (b.y - 1) as usize }) ==> {
            &&& tick_spec(s).0.bullet is None
            &&& tick_spec(s).1 == Some(Effect::SoundHit) || tick_spec(s).1 == Some(Effect::GameOver)
            &&& !descends((s.counter + 1) as usize) ==> tick_spec(s).1 == Some(Effect::SoundHit)
        },
        s.bullet matches Some(b) ==> b.y > 0 && !s.enemies.contains(Pos { x: b.x, y: (b.y - 1) as usize }) ==> {
            &&& tick_spec(s).0.bullet == Some(Pos { x: b.x, y: (b.y - 1) as usize })
            &&& tick_spec(s).1 != Some(Effect::SoundHit)
        },
        s.bullet matches Some(b) && b.y == 0 ==> tick_spec(s).0.bullet is None,
        s.bullet is None ==> tick_spec(s).0.bullet is None && tick_spec(s).1 != Some(Effect::SoundHit),
{
    lemma_shot_hits_exactly_occupied_cells(s.enemies, s.bullet);
}

/// Law: the enemies only ever move one row down, in their column, on every
/// 49th tick; the game ends exactly on such a tick when an enemy reaches the
/// bottom row. Without a landing every enemy moves down; with one, those
/// before it and it move down and the rest stay.
pub proof fn lemma_descent_moves_one_row(e: Seq<Pos>)
    ensures
        descended(e).len() == e.len(),
        lands(e) <==> exists|i: int| 0 <= i < e.len() && (#[trigger] e[i]).y >= 3,
        !lands(e) ==> forall|i: int| 0 <= i < e.len() ==> (#[trigger] descended(e)[i]) == lowered(e[i]),
        lands(e) ==> exists|k: int|
            0 <= k < e.len() && e[k].y >= 3 && (forall|j: int| 0 <= j <= k ==> #[trigger] descended(e)[j] == lowered(e[j]))
                && (forall|j: int| k < j < e.len() ==> #[trigger] descended(e)[j] == e[j])
                && (forall|j: int| 0 <= j < k ==> (#[trigger] e[j]).y < 3),
{
    lemma_landing_bounds(e, 0);
    if lands(e) {
        let k = landing_index(e, 0) as int;
        assert(e[k].y >= 3);
    } else {
        assert forall|i: int| 0 <= i < e.len() implies (#[trigger] e[i]).y < 3 by {}
    }
}

/// Law: only the ticks that move the enemies down can end the game, and such
/// a tick ends it exactly when an enemy reaches the bottom row.
pub proof fn lemma_game_over_only_on_descent(s: GameState)
    ensures
        !descends((s.counter + 1) as usize) ==> tick_spec(s).1 != Some(Effect::GameOver),
        !descends((s.counter + 1) as usize) ==> tick_spec(s).0.enemies == enemies_before_descent(s),
        descends((s.counter + 1) as usize) ==> ((tick_spec(s).1 == Some(Effect::GameOver)) <==> exists|i: int|
            0 <= i < enemies_before_descent(s).len() && (#[trigger] enemies_before_descent(s)[i]).y >= 3),
        descends((s.counter + 1) as usize) ==> tick_spec(s).0.enemies == descended(enemies_before_descent(s)),
{
    lemma_descent_moves_one_row(enemies_before_descent(s));
    lemma_shot_hits_exactly_occupied_cells(s.enemies, s.bullet);
}

/// Law: every 19th tick one enemy appears at the end of the list, in the
/// top row and in column `(counter + noise) % 5`, unless 25 are already in
/// play; on the other ticks none appears.
pub proof fn lemma_spawn_every_19th(enemies: Seq<Pos>, counter: usize, noise: usize)
    ensures
        counter % 19 == 0 && enemies.len() < 25 ==> {
            &&& spawned(enemies, counter, noise).len() == enemies.len() + 1
            &&& spawned(enemies, counter, noise).drop_last() == enemies
            &&& spawned(enemies, counter, noise).last().y == 0
            &&& spawned(enemies, counter, noise).last().x < 5
            &&& spawned(enemies, counter, noise).last().x == (counter + noise) % 5
        },
        counter % 19 != 0 || enemies.len() >= 25 ==> spawned(enemies, counter, noise) == enemies,
{
    if counter % 19 == 0 && enemies.len() < 25 {
        assert(spawned(enemies, counter, noise).drop_last() =~= enemies);
    }
}

/// Law: a round without a button press is exactly one tick (followed by a
/// fresh game when that tick ends the game); every round that does not end
/// the game advances the counter by exactly one, and a round with an action
/// is the tick followed by that action, whose sound, if it has one, wins.
pub proof fn lemma_round_is_tick_then_action(s: GameState, action: Option<Action>)
    requires
        s.counter < usize::MAX,
    ensures
        tick_spec(s).1 != Some(Effect::GameOver) ==> step_spec(s, None) == tick_spec(s),
        tick_spec(s).1 == Some(Effect::GameOver) ==> step_spec(s, None) == (new_state(), Some(Effect::GameOver)),
        step_spec(s, action).1 != Some(Effect::GameOver) ==> step_spec(s, action).0.counter == s.counter + 1,
        step_spec(s, action).1 == Some(Effect::GameOver) ==> step_spec(s, action).0 == new_state(),
        action matches Some(a) ==> step_spec(s, action).1 != Some(Effect::GameOver) ==> step_spec(s, action).0
            == after_action(tick_spec(s).0, a),
        action == Some(Action::Shoot) ==> step_spec(s, action).1 == Some(Effect::SoundShoot),
        action != Some(Action::Shoot) ==> step_spec(s, action).1 == tick_spec(s).1,
{
}

} // verus!
