use vstd::prelude::*;

use crate::cell::{Cell, Kind};
use crate::scene::Scene;

verus! {

/// The game's control state.
#[derive(Clone, Copy, PartialEq, Eq, Structural, Debug)]
pub enum State {
    Main,
    Playing,
    Paused,
    GameOver,
    Quit,
}

impl State {
    /// The display name of the state.
    pub open spec fn label_spec(self) -> Seq<char> {
        match self {
            State::Main => "Main"@,
            State::Playing => "Playing"@,
            State::Paused => "Paused"@,
            State::GameOver => "GameOver"@,
            State::Quit => "Quit"@,
        }
    }

    /// The display name of the state.
    pub fn label(&self) -> (r: &'static str)
        ensures
            r@ == self.label_spec(),
    {
        match self {
            State::Main => "Main",
            State::Playing => "Playing",
            State::Paused => "Paused",
            State::GameOver => "GameOver",
            State::Quit => "Quit",
        }
    }
}

/// The player's craft, in terminal coordinates: `x` grows rightward, `y`
/// downward, so the craft sits near the bottom at `y == height - 1`.
#[derive(Clone, Copy, PartialEq, Eq, Structural, Debug)]
pub struct Player {
    pub x: u16,
    pub y: u16,
}

impl Player {
    pub fn new(x: u16, y: u16) -> (p: Player)
        ensures
            p.x == x,
            p.y == y,
    {
        Player { x, y }
    }
}

/// An in-flight projectile: `x` is fixed at creation, `y` sinks toward 0 as
/// it flies up the screen.
#[derive(Clone, Copy, PartialEq, Eq, Structural, Debug)]
pub struct Missile {
    pub x: u16,
    pub y: u16,
}

/// Where one motion step leaves a projectile's `y`: one row higher, never
/// below 0.
pub open spec fn step_y(y: u16) -> u16 {
    if y > 0 {
        (y - 1) as u16
    } else {
        0
    }
}

/// Where `n` motion steps leave a projectile that started at `y0`.
pub open spec fn y_after_steps(y0: u16, n: nat) -> u16
    decreases n,
{
    if n == 0 {
        y0
    } else {
        step_y(y_after_steps(y0, (n - 1) as nat))
    }
}

/// A projectile created at height `y0` reaches `y == 0` after exactly `y0`
/// motion steps: each step decrements `y` by exactly 1 while it is
/// positive, so after `n <= y0` steps it stands at `y0 - n`, which is still
/// positive for every `n < y0` and zero at `n == y0`; it never goes below 0.
pub proof fn lemma_missile_reaches_zero(y0: u16)
    ensures
        forall|n: nat| n <= y0 ==> y_after_steps(y0, n) == y0 - n,
        y_after_steps(y0, y0 as nat) == 0,
        forall|n: nat| y_after_steps(y0, n) >= 0,
{
    assert forall|n: nat| n <= y0 implies y_after_steps(y0, n) == y0 - n by {
        lemma_y_after_steps_exact(y0, n);
    }
}

proof fn lemma_y_after_steps_exact(y0: u16, n: nat)
    requires
        n <= y0,
    ensures
        y_after_steps(y0, n) == y0 - n,
    decreases n,
{
    if n > 0 {
        lemma_y_after_steps_exact(y0, (n - 1) as nat);
    }
}

impl Missile {
    pub fn new(x: u16, y: u16) -> (m: Missile)
        ensures
            m.x == x,
            m.y == y,
    {
        Missile { x, y }
    }

    /// One motion step: the projectile climbs one row and stops at the top
    /// of the screen.
    pub fn step(&mut self)
        ensures
            final(self).x == old(self).x,
            final(self).y == step_y(old(self).y),
    {
        if self.y > 0 {
            self.y = self.y - 1;
        }
    }
}

/// A key the game reacts to, as the input listener hands it over: the
/// interrupt combination, the pause key, the two movement keys, the fire
/// key, or any other key press.
#[derive(Clone, Copy, PartialEq, Eq, Structural, Debug)]
pub enum KeyInput {
    Interrupt,
    Pause,
    Left,
    Right,
    Fire,
    Other,
}

/// The state the key dispatch leaves the machine in: the interrupt always
/// quits; any key press on the main screen, the pause key included, starts
/// the game; the pause key toggles between playing and paused; every other
/// combination changes nothing.
pub open spec fn state_after_key(s: State, key: KeyInput) -> State {
    match key {
        KeyInput::Interrupt => State::Quit,
        KeyInput::Pause => if s == State::Main {
            State::Playing
        } else if s == State::Playing {
            State::Paused
        } else if s == State::Paused {
            State::Playing
        } else {
            s
        },
        _ => if s == State::Main {
            State::Playing
        } else {
            s
        },
    }
}

/// Where the key dispatch leaves the player: any key press that starts the
/// game from the main screen places the craft mid-width on the bottom row;
/// while playing, the movement keys shift it one column, stopping at the
/// terminal's edges; every other key, and every other state, leaves it
/// alone.
pub open spec fn player_after_key(s: State, p: Player, key: KeyInput, width: u16, height: u16) -> Player {
    if key == KeyInput::Interrupt {
        p
    } else if s == State::Main {
        Player { x: (width / 2) as u16, y: (height - 1) as u16 }
    } else if s == State::Playing && key == KeyInput::Left {
        Player { x: if p.x > 0 { (p.x - 1) as u16 } else { 0 }, y: p.y }
    } else if s == State::Playing && key == KeyInput::Right {
        Player { x: if p.x + 1 < width { (p.x + 1) as u16 } else { p.x }, y: p.y }
    } else {
        p
    }
}

/// Where the key dispatch leaves the projectiles: the fire key, while
/// playing, appends one new projectile just above the craft; everything
/// else leaves the collection alone. A craft already on the top row has no
/// row above it to fire into, so nothing is spawned there.
pub open spec fn missiles_after_key(
    s: State,
    p: Player,
    ms: Seq<Missile>,
    key: KeyInput,
) -> Seq<Missile> {
    if s == State::Playing && key == KeyInput::Fire && p.y > 0 {
        ms.push(Missile { x: p.x, y: (p.y - 1) as u16 })
    } else {
        ms
    }
}

/// Once the game is over, no playing-state mutation is observed any more:
/// every key leaves the player and the projectiles untouched, and the
/// machine stays in the terminal state unless the interrupt quits it.
pub proof fn lemma_gameover_locks_entities(
    p: Player,
    ms: Seq<Missile>,
    key: KeyInput,
    width: u16,
    height: u16,
)
    ensures
        player_after_key(State::GameOver, p, key, width, height) == p,
        missiles_after_key(State::GameOver, p, ms, key) == ms,
        state_after_key(State::GameOver, key) == if key == KeyInput::Interrupt {
            State::Quit
        } else {
            State::GameOver
        },
{
}

/// The logical terrain row drawn at screen row `y`: the window of
/// `height + 1` rows starting at the frame counter is reversed before
/// drawing, so the nearest row renders at the bottom of the screen.
pub open spec fn screen_row(frame: int, height: int, len: int, y: int) -> int {
    (frame + height - y) % len
}

/// Whether a projectile's position coincides with an enemy cell of the
/// visible window.
pub open spec fn missile_hits(grid: Seq<Seq<Cell>>, frame: int, height: int, m: Missile) -> bool {
    let r = screen_row(frame, height, grid.len() as int, m.y as int);
    m.y <= height && (m.x as int) < grid[r].len() && grid[r][m.x as int].kind == Kind::Enemy
}

/// The terrain after one projectile is resolved: its enemy cell, if it sits
/// on one, downgraded to river; otherwise the terrain untouched.
pub open spec fn grid_after_missile(
    grid: Seq<Seq<Cell>>,
    frame: int,
    height: int,
    m: Missile,
) -> Seq<Seq<Cell>> {
    if missile_hits(grid, frame, height, m) {
        let r = screen_row(frame, height, grid.len() as int, m.y as int);
        grid.update(r, grid[r].update(m.x as int, Cell { kind: Kind::River }))
    } else {
        grid
    }
}

/// The terrain after the whole collision sweep, the projectiles resolved in
/// order: a later projectile sees the cells the earlier ones left behind.
pub open spec fn pass_grid(grid: Seq<Seq<Cell>>, frame: int, height: int, ms: Seq<Missile>) -> Seq<
    Seq<Cell>,
>
    decreases ms.len(),
{
    if ms.len() == 0 {
        grid
    } else {
        pass_grid(grid_after_missile(grid, frame, height, ms[0]), frame, height, ms.skip(1))
    }
}

/// The projectiles that survive the sweep, in their original order: one is
/// removed when it strikes an enemy or when its `y` has reached the top of
/// the screen.
pub open spec fn pass_kept(grid: Seq<Seq<Cell>>, frame: int, height: int, ms: Seq<Missile>) -> Seq<
    Missile,
>
    decreases ms.len(),
{
    if ms.len() == 0 {
        Seq::empty()
    } else {
        let rest = pass_kept(
            grid_after_missile(grid, frame, height, ms[0]),
            frame,
            height,
            ms.skip(1),
        );
        if !missile_hits(grid, frame, height, ms[0]) && ms[0].y > 0 {
            seq![ms[0]] + rest
        } else {
            rest
        }
    }
}

/// Whether the player's craft stands on a land or enemy cell of the visible
/// window.
pub open spec fn player_in_danger(grid: Seq<Seq<Cell>>, frame: int, height: int, p: Player) -> bool {
    let r = screen_row(frame, height, grid.len() as int, p.y as int);
    grid[r][p.x as int].kind == Kind::Land || grid[r][p.x as int].kind == Kind::Enemy
}

/// A collision applies exactly once: of two projectiles aimed at the same
/// enemy cell in the same sweep, the first removes the enemy, converting
/// the cell to river, and is itself removed; the second finds river, is not
/// removed, and converts nothing a second time.
pub proof fn lemma_collision_applies_once(
    grid: Seq<Seq<Cell>>,
    frame: int,
    height: int,
    m1: Missile,
    m2: Missile,
)
    requires
        grid.len() > 0,
        frame >= 0,
        m1.x == m2.x,
        m1.y == m2.y,
        m1.y > 0,
        missile_hits(grid, frame, height, m1),
    ensures
        pass_kept(grid, frame, height, seq![m1, m2]) == seq![m2],
        pass_grid(grid, frame, height, seq![m1, m2]) == grid_after_missile(grid, frame, height, m1),
        grid_after_missile(grid, frame, height, m1)[screen_row(
            frame,
            height,
            grid.len() as int,
            m1.y as int,
        )][m1.x as int].kind == Kind::River,
{
    let s = seq![m1, m2];
    let len = grid.len() as int;
    let r = screen_row(frame, height, len, m1.y as int);
    vstd::arithmetic::div_mod::lemma_mod_bound(frame + height - m1.y, len);
    let g1 = grid_after_missile(grid, frame, height, m1);
    assert(g1[r][m1.x as int].kind == Kind::River);
    assert(s.skip(1) =~= seq![m2]);
    assert(!missile_hits(g1, frame, height, m2));
    assert(seq![m2].skip(1) =~= Seq::<Missile>::empty());
    assert(grid_after_missile(g1, frame, height, m2) == g1);
    assert(pass_grid(grid, frame, height, s) == pass_grid(g1, frame, height, seq![m2]));
    assert(pass_grid(g1, frame, height, seq![m2]) == pass_grid(
        g1,
        frame,
        height,
        Seq::<Missile>::empty(),
    ));
    assert(pass_grid(g1, frame, height, Seq::<Missile>::empty()) == g1);
    assert(pass_kept(grid, frame, height, s) == pass_kept(g1, frame, height, seq![m2]));
    assert(pass_kept(g1, frame, height, seq![m2]) == seq![m2] + pass_kept(
        g1,
        frame,
        height,
        Seq::<Missile>::empty(),
    ));
    assert(pass_kept(g1, frame, height, Seq::<Missile>::empty()) == Seq::<Missile>::empty());
    assert(seq![m2] + Seq::<Missile>::empty() =~= seq![m2]);
}

/// The shared game state the concurrent activities operate on: the terrain,
/// the control state, the frame counter that drives scrolling, the player,
/// and the in-flight projectiles.
pub struct GameCore {
    pub scene: Scene,
    pub state: State,
    pub frame: usize,
    pub player: Player,
    pub missiles: Vec<Missile>,
}

impl GameCore {
    /// A fresh game over the given terrain: on the main screen, at frame 0,
    /// the player at the sentinel position, no projectile in flight.
    pub fn new(scene: Scene) -> (g: GameCore)
        ensures
            g.scene == scene,
            g.state == State::Main,
            g.frame == 0,
            g.player == (Player { x: 0, y: 0 }),
            g.missiles@ == Seq::<Missile>::empty(),
    {
        let g = GameCore {
            scene,
            state: State::Main,
            frame: 0,
            player: Player::new(0, 0),
            missiles: Vec::new(),
        };
        proof {
            assert(g.missiles@ =~= Seq::<Missile>::empty());
        }
        g
    }

    /// One 100ms tick: the frame counter advances while the game is being
    /// played and stands still in every other state.
    pub fn tick(&mut self)
        requires
            old(self).state == State::Playing ==> old(self).frame < usize::MAX,
        ensures
            final(self).frame == if old(self).state == State::Playing {
                old(self).frame + 1
            } else {
                old(self).frame as int
            },
            final(self).state == old(self).state,
            final(self).scene == old(self).scene,
            final(self).player == old(self).player,
            final(self).missiles == old(self).missiles,
    {
        if self.state == State::Playing {
            self.frame = self.frame + 1;
        }
    }

    /// Dispatches one key press: the interrupt quits from any state; any
    /// key — the pause key included — starts the game from the main
    /// screen, placing the craft mid-width on the bottom row; 'p' toggles
    /// pause; while playing, the movement keys shift the craft one column
    /// (stopping at the edges) and the fire key spawns a projectile just
    /// above it.
    pub fn handle_key(&mut self, key: KeyInput, width: u16, height: u16)
        requires
            height >= 1,
        ensures
            final(self).state == state_after_key(old(self).state, key),
            final(self).player == player_after_key(
                old(self).state,
                old(self).player,
                key,
                width,
                height,
            ),
            final(self).missiles@ == missiles_after_key(
                old(self).state,
                old(self).player,
                old(self).missiles@,
                key,
            ),
            final(self).scene == old(self).scene,
            final(self).frame == old(self).frame,
    {
        match key {
            KeyInput::Interrupt => {
                self.state = State::Quit;
            },
            _ => {
                if self.state == State::Main {
                    self.player = Player::new(width / 2, height - 1);
                    self.state = State::Playing;
                } else if key == KeyInput::Pause {
                    if self.state == State::Playing {
                        self.state = State::Paused;
                    } else if self.state == State::Paused {
                        self.state = State::Playing;
                    }
                } else if self.state == State::Playing {
                    match key {
                        KeyInput::Left => {
                            if self.player.x > 0 {
                                self.player = Player::new(self.player.x - 1, self.player.y);
                            }
                        },
                        KeyInput::Right => {
                            if width >= 1 && self.player.x < width - 1 {
                                self.player = Player::new(self.player.x + 1, self.player.y);
                            }
                        },
                        KeyInput::Fire => {
                            if self.player.y > 0 {
                                let m = Missile::new(self.player.x, self.player.y - 1);
                                self.missiles.push(m);
                            }
                        },
                        _ => {},
                    }
                }
            },
        }
    }

    /// One synchronized motion step for every in-flight projectile: each
    /// climbs one row, stopping at the top of the screen.
    pub fn step_missiles(&mut self)
        ensures
            final(self).missiles@.len() == old(self).missiles@.len(),
            forall|i: int|
                0 <= i < old(self).missiles@.len() ==> #[trigger] final(self).missiles@[i]
                    == (Missile {
                    x: old(self).missiles@[i].x,
                    y: step_y(old(self).missiles@[i].y),
                }),
            final(self).state == old(self).state,
            final(self).scene == old(self).scene,
            final(self).frame == old(self).frame,
            final(self).player == old(self).player,
    {
        let ghost g0 = *self;
        let mut i: usize = 0;
        while i < self.missiles.len()
            invariant
                i <= self.missiles@.len(),
                self.missiles@.len() == g0.missiles@.len(),
                forall|j: int|
                    0 <= j < i ==> #[trigger] self.missiles@[j] == (Missile {
                        x: g0.missiles@[j].x,
                        y: step_y(g0.missiles@[j].y),
                    }),
                forall|j: int|
                    i <= j < g0.missiles@.len() ==> #[trigger] self.missiles@[j]
                        == g0.missiles@[j],
                self.state == g0.state,
                self.scene == g0.scene,
                self.frame == g0.frame,
                self.player == g0.player,
            decreases self.missiles@.len() - i,
        {
            let mut m = self.missiles[i];
            m.step();
            self.missiles.set(i, m);
            i = i + 1;
        }
    }

    /// The render-time collision pass of the playing state. The projectiles
    /// are resolved in order: one whose position coincides with an enemy
    /// cell of the visible window removes that enemy, the cell downgraded
    /// to river in place, and is itself removed; one whose `y` has reached
    /// the top of the screen is removed regardless. A later projectile sees
    /// the cells the earlier ones left, so the same enemy falls only once.
    /// Afterwards, if the craft stands on a land or enemy cell of the
    /// swept window, the game is over.
    pub fn render_pass(&mut self, height: u16)
        requires
            old(self).state == State::Playing,
            old(self).scene.wf(),
            old(self).scene.height() > 0,
            old(self).player.y <= height,
            old(self).player.x < old(self).scene.width(),
        ensures
            final(self).scene.grid() == pass_grid(
                old(self).scene.grid(),
                old(self).frame as int,
                height as int,
                old(self).missiles@,
            ),
            final(self).missiles@ == pass_kept(
                old(self).scene.grid(),
                old(self).frame as int,
                height as int,
                old(self).missiles@,
            ),
            final(self).state == if player_in_danger(
                final(self).scene.grid(),
                old(self).frame as int,
                height as int,
                old(self).player,
            ) {
                State::GameOver
            } else {
                State::Playing
            },
            final(self).player == old(self).player,
            final(self).frame == old(self).frame,
            final(self).scene.wf(),
            final(self).scene.height() == old(self).scene.height(),
            final(self).scene.width() == old(self).scene.width(),
    {
        let ghost g0 = *self;
        let ghost frame_g = self.frame as int;
        let ghost height_g = height as int;
        let ghost ms0 = self.missiles@;
        let len = self.scene.len();
        let width = self.scene.row_width();
        let mut kept: Vec<Missile> = Vec::new();
        let mut i: usize = 0;
        proof {
            assert(ms0.skip(0) =~= ms0);
            assert(kept@ + pass_kept(self.scene.grid(), frame_g, height_g, ms0) =~= pass_kept(
                self.scene.grid(),
                frame_g,
                height_g,
                ms0,
            ));
        }
        while i < self.missiles.len()
            invariant
                i <= ms0.len(),
                self.missiles@ == ms0,
                self.state == g0.state,
                self.frame == g0.frame,
                self.player == g0.player,
                frame_g == g0.frame as int,
                height_g == height as int,
                self.scene.wf(),
                self.scene.height() == g0.scene.height(),
                self.scene.width() == g0.scene.width(),
                len == self.scene.height(),
                width == self.scene.width(),
                len > 0,
                pass_grid(g0.scene.grid(), frame_g, height_g, ms0) == pass_grid(
                    self.scene.grid(),
                    frame_g,
                    height_g,
                    ms0.skip(i as int),
                ),
                pass_kept(g0.scene.grid(), frame_g, height_g, ms0) == kept@ + pass_kept(
                    self.scene.grid(),
                    frame_g,
                    height_g,
                    ms0.skip(i as int),
                ),
            decreases ms0.len() - i,
        {
            let m = self.missiles[i];
            let ghost cur_grid = self.scene.grid();
            let ghost rest = ms0.skip(i as int);
            proof {
                assert(rest[0] == m);
                assert(rest.skip(1) =~= ms0.skip(i as int + 1));
                assert(cur_grid.len() == len);
                vstd::arithmetic::div_mod::lemma_mod_bound(
                    frame_g + height_g - m.y,
                    len as int,
                );
                let r = screen_row(frame_g, height_g, cur_grid.len() as int, m.y as int);
                assert(0 <= r < len);
                assert(cur_grid[r].len() == width);
            }
            let mut hit = false;
            if m.y <= height && (m.x as usize) < width {
                let lrow = screen_row_exec(self.frame, height, m.y, len);
                let c = self.scene.cell_at(lrow, m.x as usize);
                if c.kind == Kind::Enemy {
                    hit = true;
                    self.scene.destroy_enemy(lrow, m.x as usize);
                }
            }
            proof {
                assert(hit == missile_hits(cur_grid, frame_g, height_g, m));
                assert(self.scene.grid() == grid_after_missile(cur_grid, frame_g, height_g, m));
            }
            let ghost kept_before = kept@;
            if !hit && m.y > 0 {
                kept.push(m);
            }
            i = i + 1;
            proof {
                let new_rest = pass_kept(
                    self.scene.grid(),
                    frame_g,
                    height_g,
                    ms0.skip(i as int),
                );
                if !missile_hits(cur_grid, frame_g, height_g, m) && m.y > 0 {
                    assert(kept@ + new_rest =~= kept_before + (seq![m] + new_rest));
                } else {
                    assert(kept@ == kept_before);
                }
            }
        }
        proof {
            assert(ms0.skip(ms0.len() as int) =~= Seq::<Missile>::empty());
            assert(kept@ + Seq::<Missile>::empty() =~= kept@);
        }
        self.missiles = kept;
        let lrow = screen_row_exec(self.frame, height, self.player.y, len);
        let c = self.scene.cell_at(lrow, self.player.x as usize);
        if c.kind == Kind::Land || c.kind == Kind::Enemy {
            self.state = State::GameOver;
        }
    }
}

/// Where the pause banner sits: centered on the terminal, its left edge
/// pulled back by half the banner's length.
pub fn banner_position(width: u16, height: u16, text_len: u16) -> (pos: (u16, u16))
    requires
        text_len / 2 <= width / 2,
    ensures
        pos.0 == width / 2 - text_len / 2,
        pos.1 == height / 2,
{
    (width / 2 - text_len / 2, height / 2)
}

/// The logical row index drawn at screen row `y`, computed on the ring
/// without overflowing: `(frame + height - y) mod len`.
fn screen_row_exec(frame: usize, height: u16, y: u16, len: usize) -> (r: usize)
    requires
        len > 0,
        y <= height,
    ensures
        r == screen_row(frame as int, height as int, len as int, y as int),
        r < len,
{
    let off = (height - y) as usize;
    let a = frame % len;
    let b = off % len;
    proof {
        vstd::arithmetic::div_mod::lemma_mod_bound(frame as int, len as int);
        vstd::arithmetic::div_mod::lemma_mod_bound(off as int, len as int);
        vstd::arithmetic::div_mod::lemma_add_mod_noop(frame as int, off as int, len as int);
    }
    let r = if b >= len - a {
        b - (len - a)
    } else {
        a + b
    };
    proof {
        if a + b >= len {
            vstd::arithmetic::div_mod::lemma_fundamental_div_mod_converse(
                a + b,
                len as int,
                1,
                a + b - len as int,
            );
        } else {
            vstd::arithmetic::div_mod::lemma_small_mod((a + b) as nat, len as nat);
        }
    }
    r
}

} // verus!
