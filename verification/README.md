# micro_shooter

A small shooter for the BBC micro:bit v2: the ship moves along the bottom row
of the 5x5 LED matrix, enemies appear in the top row and creep down, and the
two buttons move the ship or fire. Sounds and a game-over tune play on the
speaker.

- `src/` is the library, verified with Verus:
  - `music.rs`: notes, tempos, pitch frequencies and note durations;
  - `game.rs`: the game state machine (`Game::tick`, `Game::apply_player_action`,
    `Game::step`), its model and the laws it keeps;
  - `enemies.rs`: the enemies' fixed-capacity `heapless::Vec` and the
    trusted contracts of the methods the game calls on it;
  - `pattern.rs`: the LED images (the game, the digits, the sad face).
- `app/main.rs` is the firmware around it: board setup, buttons, speaker
  (PWM), display and timer.
- `tests/` runs the library on concrete games and notes.
