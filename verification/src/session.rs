//! One life of the game: the bird, the walls in play, the spawn clock and the
//! cell buffer, advanced one tick at a time.

use crate::chance::draw_between;
use crate::input::Command;
use crate::obstacles::{
    advance_walls, advanced_all, collides, hits, overlaid, retire, retired, wall_views,
};
use crate::player::{Player, PlayerView, FLAP_IMPULSE, GRAVITY_PER_TICK, PLAYER_COLUMN};
use crate::screen::{
    blank, in_bounds, is_playfield, with_tile, Screen, Tile, SCREEN_HEIGHT, SCREEN_WIDTH,
};
use crate::units::{cell_of, cell_origin, fits, lemma_cell_of_bounds, UNITS_PER_CELL};
use crate::wall::{Wall, WallView, WALL_FULL_HEIGHT, WALL_SHRINK_LIMIT};
use vstd::prelude::*;

verus! {

/// Fine units that every wall moves to the left in one tick: 11/40 of a cell.
/// The score grows by as much.
pub const WALL_VELOCITY: isize = 33;

/// The least number of ticks between two walls.
pub const SPAWN_MIN: u64 = 50;

/// The number of ticks between two walls stays below this.
pub const SPAWN_LIMIT: u64 = 75;

/// Ticks between the first wall and the second.
pub const FIRST_SPAWN: u64 = 60;

/// What the caller of a tick does next.
#[derive(Clone, Copy, Debug, PartialEq, Eq, Structural)]
pub enum Action {
    /// Show the frame and go on.
    Continue,
    /// The life is over: show the frame, pause, and start a new session.
    Restart,
    /// The player asked to leave.
    Quit,
}

/// What a spawn brings: the new wall and the number of ticks until the next one.
pub struct Spawn {
    pub wall: Wall,
    pub threshold: u64,
}

/// A spawn as a mathematical value.
pub struct SpawnView {
    pub wall: WallView,
    pub threshold: int,
}

impl View for Spawn {
    type V = SpawnView;

    open spec fn view(&self) -> SpawnView {
        SpawnView { wall: self.wall@, threshold: self.threshold as int }
    }
}

impl SpawnView {
    /// The wall stands at the right border with a height that a new wall can
    /// have and moves at `WALL_VELOCITY`; the threshold lies in
    /// `SPAWN_MIN..SPAWN_LIMIT`.
    pub open spec fn valid(self) -> bool {
        &&& 0 <= WALL_FULL_HEIGHT - self.wall.height < WALL_SHRINK_LIMIT
        &&& self.wall == WallView::spawned(
            self.wall.edge,
            WALL_FULL_HEIGHT - self.wall.height,
            WALL_VELOCITY as int,
        )
        &&& SPAWN_MIN <= self.threshold < SPAWN_LIMIT
    }
}

/// The view of a spawn that may be absent.
pub open spec fn spawn_view(spawn: Option<Spawn>) -> Option<SpawnView> {
    match spawn {
        Some(s) => Some(s@),
        None => None,
    }
}

/// Whether a row lies off the playfield.
pub open spec fn row_out(row: int) -> bool {
    row < 0 || row >= SCREEN_HEIGHT
}

/// The empty playfield with the bird on it, if its position is on the playfield.
pub open spec fn with_bird(column: int, row: int) -> Seq<Seq<Tile>> {
    if in_bounds(column, row) {
        with_tile(blank(), column, row, Tile::Bird)
    } else {
        blank()
    }
}

/// The frame for a bird and walls: a cell that a wall covers shows `Wall`;
/// of the others, the bird's cell shows `Bird` and the rest `Sky`.
pub open spec fn painted(column: int, row: int, walls: Seq<WallView>) -> Seq<Seq<Tile>> {
    overlaid(with_bird(column, row), walls)
}

/// How steeply the greatest downward speed grows with the height; see
/// `SessionView::airborne`.
pub const SINK_SLOPE: isize = 60;

/// The greatest downward speed at height zero, times `SINK_SLOPE`; see
/// `SessionView::airborne`.
pub const SINK_MARGIN: isize = 7320;

/// The least fine coordinate of the first column of a wall in play.
pub open spec fn lead_min() -> int {
    1 - UNITS_PER_CELL - WALL_VELOCITY
}

/// A session as a mathematical value.
pub struct SessionView {
    /// The bird.
    pub player: PlayerView,
    /// The walls in play, oldest first.
    pub walls: Seq<WallView>,
    /// Ticks since the last spawn, the tick of the spawn included.
    pub tick_counter: int,
    /// The value of `tick_counter` at which the next wall appears.
    pub threshold: int,
    /// Whether the life has ended.
    pub over: bool,
    /// The frame drawn by the last tick.
    pub screen: Seq<Seq<Tile>>,
}

impl SessionView {
    /// A session before its first tick.
    pub open spec fn initial() -> SessionView {
        SessionView {
            player: PlayerView::initial(),
            walls: Seq::empty(),
            tick_counter: 0,
            threshold: FIRST_SPAWN as int,
            over: false,
            screen: blank(),
        }
    }

    /// Whether the next tick brings a new wall.
    pub open spec fn spawn_due(self) -> bool {
        self.tick_counter % self.threshold == 0
    }

    /// Whether the next tick does anything: the life is not over and the
    /// player does not leave.
    pub open spec fn runs(self, command: Option<Command>) -> bool {
        !self.over && command != Some(Command::Quit)
    }

    /// Whether the score can grow by one more tick within machine integers.
    pub open spec fn has_room(self) -> bool {
        self.over || fits(self.player.score + WALL_VELOCITY)
    }

    /// Whether `spawn` can serve the next tick: when the tick brings a wall,
    /// `spawn` holds a valid one.
    pub open spec fn accepts(self, command: Option<Command>, spawn: Option<SpawnView>) -> bool {
        self.runs(command) && self.spawn_due() ==> spawn is Some && spawn->0.valid()
    }

    /// The bird can stay in the air: it is on the playfield, it rises no
    /// faster than a flap makes it, and it sinks no faster than its height
    /// allows. A bird gains speed only by falling, so the lower it is the
    /// faster it can be: `SINK_SLOPE` times its speed is at most its height
    /// plus `SINK_MARGIN`. On the playfield that keeps the speed below two
    /// cells per tick.
    pub open spec fn airborne(p: PlayerView) -> bool {
        &&& !row_out(p.row)
        &&& FLAP_IMPULSE + GRAVITY_PER_TICK <= p.velocity
        &&& SINK_SLOPE * p.velocity <= p.height + SINK_MARGIN
    }

    /// What holds of every session: the bird flies in its column and its row
    /// follows its height; while the life lasts the bird is airborne; every
    /// wall is valid, moves at `WALL_VELOCITY` and has not passed the left
    /// border by more than one tick; the spawn clock has not run past its
    /// threshold, which lies in `SPAWN_MIN..SPAWN_LIMIT`; the frame has the
    /// playfield's size.
    pub open spec fn sound(self) -> bool {
        &&& self.player.column == PLAYER_COLUMN
        &&& self.player.row == cell_of(self.player.height)
        &&& !self.over ==> Self::airborne(self.player)
        &&& forall|i: int|
            0 <= i < self.walls.len() ==> {
                &&& (#[trigger] self.walls[i]).valid()
                &&& self.walls[i].velocity == WALL_VELOCITY
                &&& lead_min() <= self.walls[i].lead <= cell_origin(SCREEN_WIDTH as int)
            }
        &&& SPAWN_MIN <= self.threshold < SPAWN_LIMIT
        &&& 0 <= self.tick_counter <= self.threshold
        &&& is_playfield(self.screen)
    }

    /// The bird after a tick: the command, one step of motion, the new row,
    /// the score.
    pub open spec fn next_player(self, command: Option<Command>) -> PlayerView {
        self.player.commanded(command).integrated(GRAVITY_PER_TICK as int).projected().scored(
            WALL_VELOCITY as int,
        )
    }

    /// The walls after a tick: those off the screen are retired, a due wall
    /// joins at the end, and all move one tick.
    pub open spec fn next_walls(self, spawn: Option<SpawnView>) -> Seq<WallView> {
        let kept = retired(self.walls);
        advanced_all(
            if self.spawn_due() {
                kept.push(spawn->0.wall)
            } else {
                kept
            },
        )
    }

    /// The session after a tick. Nothing changes once the life is over or
    /// when the player leaves. Otherwise, in this order: the command acts on
    /// the bird and the bird moves; walls off the screen are retired; if the
    /// clock has reached its threshold a wall appears, the threshold is drawn
    /// anew and the clock starts over; the frame is drawn afresh; the score
    /// grows; and the life ends if the bird has left the playfield or shares
    /// its cell with a block.
    pub open spec fn stepped(self, command: Option<Command>, spawn: Option<SpawnView>) -> SessionView {
        if !self.runs(command) {
            self
        } else {
            let player = self.next_player(command);
            let walls = self.next_walls(spawn);
            SessionView {
                player,
                walls,
                tick_counter: if self.spawn_due() {
                    1
                } else {
                    self.tick_counter + 1
                },
                threshold: if self.spawn_due() {
                    spawn->0.threshold
                } else {
                    self.threshold
                },
                over: row_out(player.row) || hits(walls, player.column, player.row),
                screen: painted(player.column, player.row, walls),
            }
        }
    }

    /// Ticks that pass before the tick that brings the next wall.
    pub open spec fn ticks_to_spawn(self) -> int {
        if self.tick_counter == 0 {
            0
        } else {
            self.threshold - self.tick_counter
        }
    }

    /// The session after one tick for each command in turn; `spawns` holds
    /// what each tick may spawn.
    pub open spec fn run(
        self,
        commands: Seq<Option<Command>>,
        spawns: Seq<Option<SpawnView>>,
    ) -> SessionView
        decreases commands.len(),
    {
        if commands.len() == 0 {
            self
        } else {
            self.run(commands.drop_last(), spawns.drop_last()).stepped(
                commands.last(),
                spawns.last(),
            )
        }
    }

    /// The session that tick `k` of a run finds: the session after the `k`
    /// ticks before it.
    pub open spec fn before_tick(
        self,
        commands: Seq<Option<Command>>,
        spawns: Seq<Option<SpawnView>>,
        k: int,
    ) -> SessionView {
        self.run(commands.take(k), spawns.take(k))
    }

    /// Whether every tick of a run does something: the life lasts up to the
    /// last tick, no command leaves, and every due wall is there.
    pub open spec fn runs_through(
        self,
        commands: Seq<Option<Command>>,
        spawns: Seq<Option<SpawnView>>,
    ) -> bool {
        &&& commands.len() == spawns.len()
        &&& forall|k: int|
            0 <= k < commands.len() ==> {
                &&& (#[trigger] self.before_tick(commands, spawns, k)).runs(commands[k])
                &&& self.before_tick(commands, spawns, k).accepts(commands[k], spawns[k])
            }
    }

    /// What the caller does after the tick.
    pub open spec fn action(self, command: Option<Command>, spawn: Option<SpawnView>) -> Action {
        if command == Some(Command::Quit) {
            Action::Quit
        } else if self.stepped(command, spawn).over {
            Action::Restart
        } else {
            Action::Continue
        }
    }
}

/// While the spawn clock has not run past its threshold, a wall is due
/// exactly when the clock stands at zero or at the threshold.
pub proof fn lemma_spawn_due(s: SessionView)
    requires
        0 < s.threshold,
        0 <= s.tick_counter <= s.threshold,
    ensures
        s.spawn_due() <==> s.tick_counter == 0 || s.tick_counter == s.threshold,
{
    if s.tick_counter < s.threshold {
        vstd::arithmetic::div_mod::lemma_small_mod(s.tick_counter as nat, s.threshold as nat);
    } else {
        vstd::arithmetic::div_mod::lemma_mod_self_0(s.threshold);
    }
}

/// A tick keeps a session sound.
pub proof fn lemma_stepped_sound(s: SessionView, command: Option<Command>, spawn: Option<SpawnView>)
    requires
        s.sound(),
        s.accepts(command, spawn),
    ensures
        s.stepped(command, spawn).sound(),
{
    if s.runs(command) {
        let t = s.stepped(command, spawn);
        lemma_spawn_due(s);
        lemma_cell_of_bounds(t.player.height, SCREEN_HEIGHT as int);
        let kept = retired(s.walls);
        let active = if s.spawn_due() {
            kept.push(spawn->0.wall)
        } else {
            kept
        };
        assert forall|i: int| 0 <= i < t.walls.len() implies {
            &&& (#[trigger] t.walls[i]).valid()
            &&& t.walls[i].velocity == WALL_VELOCITY
            &&& lead_min() <= t.walls[i].lead <= cell_origin(SCREEN_WIDTH as int)
        } by {
            let w = active[i];
            assert(t.walls[i] == w.advanced());
            if i < kept.len() {
                s.walls.lemma_filter_pred(crate::obstacles::in_play(), i);
                assert(kept.contains(w));
                s.walls.lemma_filter_contains_rev(crate::obstacles::in_play(), w);
                let j = choose|j: int| 0 <= j < s.walls.len() && s.walls[j] == w;
                assert(s.walls[j].valid());
            }
        }
    }
}

/// A run that does something at every tick does so on each of its
/// beginnings.
pub proof fn lemma_runs_through_take(
    s: SessionView,
    commands: Seq<Option<Command>>,
    spawns: Seq<Option<SpawnView>>,
    n: int,
)
    requires
        s.runs_through(commands, spawns),
        0 <= n <= commands.len(),
    ensures
        s.runs_through(commands.take(n), spawns.take(n)),
{
    let (c0, s0) = (commands.take(n), spawns.take(n));
    assert forall|k: int| 0 <= k < n implies {
        &&& (#[trigger] s.before_tick(c0, s0, k)).runs(c0[k])
        &&& s.before_tick(c0, s0, k).accepts(c0[k], s0[k])
    } by {
        assert(c0.take(k) =~= commands.take(k));
        assert(s0.take(k) =~= spawns.take(k));
        assert(s.before_tick(commands, spawns, k).runs(commands[k]));
    }
}

/// The steps of a run but the last are a run that does something at every
/// tick, and so is the last step on what they lead to.
proof fn lemma_runs_through_prefix(
    s: SessionView,
    commands: Seq<Option<Command>>,
    spawns: Seq<Option<SpawnView>>,
)
    requires
        s.runs_through(commands, spawns),
        commands.len() > 0,
    ensures
        s.runs_through(commands.drop_last(), spawns.drop_last()),
        s.run(commands.drop_last(), spawns.drop_last()).runs(commands.last()),
        s.run(commands.drop_last(), spawns.drop_last()).accepts(commands.last(), spawns.last()),
{
    let n = commands.len() - 1;
    lemma_runs_through_take(s, commands, spawns, n);
    assert(commands.take(n) =~= commands.drop_last());
    assert(spawns.take(n) =~= spawns.drop_last());
    assert(s.before_tick(commands, spawns, n).runs(commands[n]));
}

/// A run keeps a session sound.
pub proof fn lemma_run_sound(
    s: SessionView,
    commands: Seq<Option<Command>>,
    spawns: Seq<Option<SpawnView>>,
)
    requires
        s.sound(),
        s.runs_through(commands, spawns),
    ensures
        s.run(commands, spawns).sound(),
    decreases commands.len(),
{
    if commands.len() > 0 {
        lemma_runs_through_prefix(s, commands, spawns);
        lemma_run_sound(s, commands.drop_last(), spawns.drop_last());
        lemma_stepped_sound(
            s.run(commands.drop_last(), spawns.drop_last()),
            commands.last(),
            spawns.last(),
        );
    }
}

/// The bird's motion depends on the commands alone. While the life lasts,
/// its height and speed after a run are those of a bird that was given the
/// same commands with nothing else in the world: no wall, spawn or draw has
/// a part in them. The score has grown by `WALL_VELOCITY` for each tick.
pub proof fn lemma_motion_follows_commands(
    s: SessionView,
    commands: Seq<Option<Command>>,
    spawns: Seq<Option<SpawnView>>,
)
    requires
        s.runs_through(commands, spawns),
    ensures
        s.run(commands, spawns).player.height == s.player.driven(
            commands,
            GRAVITY_PER_TICK as int,
        ).height,
        s.run(commands, spawns).player.velocity == s.player.driven(
            commands,
            GRAVITY_PER_TICK as int,
        ).velocity,
        s.run(commands, spawns).player.score == s.player.score + commands.len() * WALL_VELOCITY,
    decreases commands.len(),
{
    if commands.len() > 0 {
        lemma_runs_through_prefix(s, commands, spawns);
        lemma_motion_follows_commands(s, commands.drop_last(), spawns.drop_last());
    }
}

/// The spawn clock, one tick at a time. A wall is due exactly when no tick
/// is left to wait. The tick that brings a wall leaves one tick less than
/// the new threshold to wait, and the new threshold lies in
/// `SPAWN_MIN..SPAWN_LIMIT`; any other tick leaves one tick less than before.
pub proof fn lemma_spawn_clock(s: SessionView, command: Option<Command>, spawn: Option<SpawnView>)
    requires
        s.sound(),
        s.runs(command),
        s.accepts(command, spawn),
    ensures
        s.spawn_due() <==> s.ticks_to_spawn() == 0,
        s.spawn_due() ==> SPAWN_MIN <= s.stepped(command, spawn).threshold < SPAWN_LIMIT && s.stepped(
            command,
            spawn,
        ).ticks_to_spawn() == s.stepped(command, spawn).threshold - 1,
        !s.spawn_due() ==> s.stepped(command, spawn).threshold == s.threshold && s.stepped(
            command,
            spawn,
        ).ticks_to_spawn() == s.ticks_to_spawn() - 1,
{
    lemma_spawn_due(s);
}

/// A tick that brings no wall adds none: the walls in play after it are no
/// more than before.
proof fn lemma_idle_tick(s: SessionView, command: Option<Command>, spawn: Option<SpawnView>)
    requires
        !s.spawn_due(),
    ensures
        s.stepped(command, spawn).walls.len() <= s.walls.len(),
{
    crate::obstacles::lemma_retired_keeps_walls_in_play(s.walls);
}

/// Waiting for a wall: a run of no more ticks than are left to wait leaves
/// the threshold alone and as many ticks fewer to wait, and adds no wall.
proof fn lemma_spawn_wait(
    s: SessionView,
    commands: Seq<Option<Command>>,
    spawns: Seq<Option<SpawnView>>,
)
    requires
        s.sound(),
        s.tick_counter > 0,
        s.runs_through(commands, spawns),
        commands.len() <= s.ticks_to_spawn(),
    ensures
        s.run(commands, spawns).sound(),
        s.run(commands, spawns).threshold == s.threshold,
        s.run(commands, spawns).tick_counter == s.tick_counter + commands.len(),
        s.run(commands, spawns).walls.len() <= s.walls.len(),
    decreases commands.len(),
{
    if commands.len() > 0 {
        let (c0, s0) = (commands.drop_last(), spawns.drop_last());
        lemma_runs_through_prefix(s, commands, spawns);
        lemma_spawn_wait(s, c0, s0);
        let mid = s.run(c0, s0);
        lemma_spawn_clock(mid, commands.last(), spawns.last());
        lemma_idle_tick(mid, commands.last(), spawns.last());
        lemma_stepped_sound(mid, commands.last(), spawns.last());
        assert(s.run(commands, spawns) == mid.stepped(commands.last(), spawns.last()));
        assert(mid.ticks_to_spawn() == mid.threshold - mid.tick_counter);
        assert(mid.stepped(commands.last(), spawns.last()).tick_counter > 0);
    }
}

/// Walls come neither sooner nor later than the threshold says. From a
/// session in which some tick has passed since the last wall, a run of no
/// more ticks than are left to wait brings no wall and leaves as many ticks
/// fewer to wait; once none is left, a wall is due. Right after a wall the
/// ticks to wait are at least `SPAWN_MIN - 1` and fewer than
/// `SPAWN_LIMIT - 1`.
pub proof fn lemma_spawn_spacing(
    s: SessionView,
    commands: Seq<Option<Command>>,
    spawns: Seq<Option<SpawnView>>,
)
    requires
        s.sound(),
        s.tick_counter > 0,
        s.runs_through(commands, spawns),
        commands.len() <= s.ticks_to_spawn(),
    ensures
        forall|k: int|
            0 <= k < commands.len() ==> !(#[trigger] s.before_tick(commands, spawns, k)).spawn_due(),
        s.run(commands, spawns).threshold == s.threshold,
        s.run(commands, spawns).ticks_to_spawn() == s.ticks_to_spawn() - commands.len(),
        s.run(commands, spawns).walls.len() <= s.walls.len(),
        commands.len() == s.ticks_to_spawn() <==> s.run(commands, spawns).spawn_due(),
{
    assert forall|k: int| 0 <= k < commands.len() implies !(#[trigger] s.before_tick(
        commands,
        spawns,
        k,
    )).spawn_due() by {
        lemma_runs_through_take(s, commands, spawns, k);
        lemma_spawn_wait(s, commands.take(k), spawns.take(k));
        lemma_spawn_due(s.run(commands.take(k), spawns.take(k)));
    }
    lemma_spawn_wait(s, commands, spawns);
    lemma_spawn_due(s.run(commands, spawns));
}

/// Retirement and the tick it falls on. Every wall in play after a tick is
/// the wall that appeared on this tick or one that was not off the screen
/// before the tick, moved by one tick; and every wall that was not off the
/// screen before the tick is still in play after it. So a wall is dropped by
/// the first tick that finds all its columns negative, and by none before.
pub proof fn lemma_retirement(s: SessionView, command: Option<Command>, spawn: Option<SpawnView>)
    requires
        s.sound(),
        s.runs(command),
        s.accepts(command, spawn),
    ensures
        forall|j: int|
            0 <= j < s.stepped(command, spawn).walls.len() ==> exists|w: WallView|
                {
                    &&& (#[trigger] s.stepped(command, spawn).walls[j]) == w.advanced()
                    &&& !w.offscreen()
                    &&& s.walls.contains(w) || (s.spawn_due() && w == spawn->0.wall)
                },
        forall|i: int|
            0 <= i < s.walls.len() && !(#[trigger] s.walls[i]).offscreen() ==> s.stepped(
                command,
                spawn,
            ).walls.contains(s.walls[i].advanced()),
        forall|i: int|
            0 <= i < s.walls.len() ==> (#[trigger] s.walls[i]).offscreen() == forall|k: int|
                0 <= k < s.walls[i].blocks().len() ==> (#[trigger] s.walls[i].blocks()[k]).pixel.x < 0,
{
    let kept = retired(s.walls);
    let active = if s.spawn_due() {
        kept.push(spawn->0.wall)
    } else {
        kept
    };
    let next = s.stepped(command, spawn).walls;
    crate::obstacles::lemma_retired_keeps_walls_in_play(s.walls);
    assert forall|j: int| 0 <= j < next.len() implies exists|w: WallView|
        {
            &&& (#[trigger] next[j]) == w.advanced()
            &&& !w.offscreen()
            &&& s.walls.contains(w) || (s.spawn_due() && w == spawn->0.wall)
        } by {
        let w = active[j];
        assert(next[j] == w.advanced());
        if j < kept.len() {
            assert(!kept[j].offscreen());
        }
    }
    assert forall|i: int| 0 <= i < s.walls.len() && !(#[trigger] s.walls[i]).offscreen() implies next.contains(
        s.walls[i].advanced(),
    ) by {
        assert(kept.contains(s.walls[i]));
        let j = choose|j: int| 0 <= j < kept.len() && kept[j] == s.walls[i];
        assert(active[j] == s.walls[i]);
        assert(next[j] == s.walls[i].advanced());
    }
    assert forall|i: int| 0 <= i < s.walls.len() implies (#[trigger] s.walls[i]).offscreen()
        == forall|k: int|
        0 <= k < s.walls[i].blocks().len() ==> (#[trigger] s.walls[i].blocks()[k]).pixel.x < 0 by {
        crate::wall::lemma_offscreen_is_all_columns_negative(s.walls[i]);
    }
}

/// Only an exact hit ends a life. After a tick the life is over exactly when
/// the bird's row is off the playfield or some block of a wall in play has
/// the bird's very column and row. A block in a neighbouring cell ends
/// nothing.
pub proof fn lemma_over_is_exact_hit(
    s: SessionView,
    command: Option<Command>,
    spawn: Option<SpawnView>,
)
    requires
        s.sound(),
        s.runs(command),
        s.accepts(command, spawn),
    ensures
        ({
            let t = s.stepped(command, spawn);
            t.over <==> row_out(t.player.row) || exists|i: int, k: int|
                0 <= i < t.walls.len() && 0 <= k < t.walls[i].blocks().len() && (
                #[trigger] t.walls[i].blocks()[k]).pixel.x == t.player.column
                    && t.walls[i].blocks()[k].pixel.y == t.player.row
        }),
{
    let t = s.stepped(command, spawn);
    lemma_stepped_sound(s, command, spawn);
    crate::obstacles::lemma_hits_is_exact(t.walls, t.player.column, t.player.row);
}

/// One life of the game.
pub struct Session {
    player: Player,
    walls: Vec<Wall>,
    screen: Screen,
    tick_counter: u64,
    new_wall_counter: u64,
    over: bool,
}

impl View for Session {
    type V = SessionView;

    closed spec fn view(&self) -> SessionView {
        SessionView {
            player: self.player@,
            walls: wall_views(self.walls@),
            tick_counter: self.tick_counter as int,
            threshold: self.new_wall_counter as int,
            over: self.over,
            screen: self.screen@,
        }
    }
}

impl Session {
    /// The session's parts are well formed and its view is sound.
    pub closed spec fn wf(&self) -> bool {
        &&& self@.sound()
        &&& self.screen.wf()
        &&& forall|i: int| 0 <= i < self.walls@.len() ==> (#[trigger] self.walls@[i]).wf()
    }

    /// A well-formed session has a sound view.
    pub proof fn lemma_wf_sound(&self)
        requires
            self.wf(),
        ensures
            self@.sound(),
    {
    }

    /// A session before its first tick: the bird at mid-height and at rest, no
    /// walls, an empty frame, and the first wall due at once.
    pub fn new() -> (s: Session)
        ensures
            s.wf(),
            s@ == SessionView::initial(),
    {
        let s = Session {
            player: Player::new(),
            walls: Vec::new(),
            screen: Screen::new(),
            tick_counter: 0,
            new_wall_counter: FIRST_SPAWN,
            over: false,
        };
        assert(s@.walls =~= Seq::empty());
        s
    }

    /// Whether the next tick brings a new wall.
    pub fn spawn_due(&self) -> (due: bool)
        requires
            self.wf(),
        ensures
            due == self@.spawn_due(),
    {
        self.tick_counter % self.new_wall_counter == 0
    }

    /// Whether the score can grow by one more tick within machine integers.
    pub fn has_room(&self) -> (room: bool)
        ensures
            room == self@.has_room(),
    {
        self.over || self.player.score() <= isize::MAX - WALL_VELOCITY
    }

    /// Advances the session by one tick with the given command. `spawn` holds
    /// the wall and the threshold to use if a wall is due on this tick, and is
    /// dropped otherwise.
    pub fn step(&mut self, command: Option<Command>, spawn: Option<Spawn>) -> (action: Action)
        requires
            old(self).wf(),
            old(self)@.has_room(),
            old(self)@.accepts(command, spawn_view(spawn)),
            spawn matches Some(s) ==> s.wall.wf(),
        ensures
            final(self).wf(),
            final(self)@ == old(self)@.stepped(command, spawn_view(spawn)),
            action == old(self)@.action(command, spawn_view(spawn)),
    {
        let ghost before = self@;
        let ghost sv = spawn_view(spawn);
        proof {
            lemma_stepped_sound(before, command, sv);
            lemma_spawn_due(before);
        }
        match command {
            Some(Command::Quit) => {
                return Action::Quit;
            },
            _ => {},
        }
        if self.over {
            return Action::Restart;
        }
        match command {
            Some(Command::Flap) => self.player.flap(),
            _ => {},
        }
        self.player.integrate(GRAVITY_PER_TICK);

        let mut walls: Vec<Wall> = Vec::new();
        core::mem::swap(&mut self.walls, &mut walls);
        let mut walls = retire(walls);
        let ghost kept = retired(before.walls);

        if self.tick_counter % self.new_wall_counter == 0 {
            if let Some(s) = spawn {
                let ghost prior = walls@;
                walls.push(s.wall);
                assert(wall_views(walls@) =~= wall_views(prior).push(s.wall@));
                self.new_wall_counter = s.threshold;
                self.tick_counter = 0;
            }
        }
        let ghost active = wall_views(walls@);
        assert(active == if before.spawn_due() {
            kept.push(sv->0.wall)
        } else {
            kept
        });
        proof {
            assert forall|i: int| 0 <= i < walls@.len() implies (#[trigger] walls@[i])@.can_advance() by {
                let w = active[i];
                assert(w == walls@[i]@);
                if i < kept.len() {
                    before.walls.lemma_filter_pred(crate::obstacles::in_play(), i);
                    assert(kept.contains(w));
                    before.walls.lemma_filter_contains_rev(crate::obstacles::in_play(), w);
                    let j = choose|j: int| 0 <= j < before.walls.len() && before.walls[j] == w;
                    assert(before.walls[j].valid());
                }
            }
        }

        self.screen.refresh();
        self.player.height_to_pixel();
        let pixel = self.player.pixel();
        self.screen.set(&pixel, Tile::Bird);
        assert(self.screen@ == with_bird(pixel.x as int, pixel.y as int));
        advance_walls(&mut walls, &mut self.screen);

        self.player.add_score(WALL_VELOCITY);
        self.tick_counter += 1;

        let over = pixel.y < 0 || pixel.y >= SCREEN_HEIGHT || collides(&walls, &pixel);
        self.walls = walls;
        self.over = over;
        assert(self@ == before.stepped(command, sv));
        if over {
            Action::Restart
        } else {
            Action::Continue
        }
    }

    /// Advances the session by one tick with the given command. When the
    /// tick brings a wall, its edge, its height and the next threshold are
    /// drawn at random; no other tick draws anything.
    pub fn tick(&mut self, command: Option<Command>) -> (action: Action)
        requires
            old(self).wf(),
            old(self)@.has_room(),
        ensures
            final(self).wf(),
            exists|spawn: Option<SpawnView>|
                {
                    &&& old(self)@.accepts(command, spawn)
                    &&& final(self)@ == #[trigger] old(self)@.stepped(command, spawn)
                    &&& action == old(self)@.action(command, spawn)
                },
            !(old(self)@.runs(command) && old(self)@.spawn_due()) ==> final(self)@ == old(
                self,
            )@.stepped(command, None) && action == old(self)@.action(command, None),
    {
        let leaves = match command {
            Some(Command::Quit) => true,
            _ => false,
        };
        let spawn = if !leaves && !self.over && self.spawn_due() {
            Some(
                Spawn {
                    wall: Wall::new(WALL_VELOCITY),
                    threshold: draw_between(SPAWN_MIN, SPAWN_LIMIT),
                },
            )
        } else {
            None
        };
        let ghost sv = spawn_view(spawn);
        let action = self.step(command, spawn);
        assert(self@ == old(self)@.stepped(command, sv));
        action
    }

    /// The bird.
    pub fn player(&self) -> (player: &Player)
        ensures
            player@ == self@.player,
    {
        &self.player
    }

    /// The walls in play, oldest first.
    pub fn walls(&self) -> (walls: &Vec<Wall>)
        requires
            self.wf(),
        ensures
            wall_views(walls@) == self@.walls,
            forall|i: int| 0 <= i < walls@.len() ==> (#[trigger] walls@[i]).wf(),
    {
        &self.walls
    }

    /// The frame drawn by the last tick.
    pub fn screen(&self) -> (screen: &Screen)
        requires
            self.wf(),
        ensures
            screen.wf(),
            screen@ == self@.screen,
    {
        &self.screen
    }

    /// Whether the life has ended.
    pub fn is_over(&self) -> (over: bool)
        ensures
            over == self@.over,
    {
        self.over
    }

    /// Ticks since the last spawn, the tick of the spawn included.
    pub fn tick_counter(&self) -> (ticks: u64)
        ensures
            ticks == self@.tick_counter,
    {
        self.tick_counter
    }

    /// The value of the tick counter at which the next wall appears.
    pub fn new_wall_counter(&self) -> (threshold: u64)
        ensures
            threshold == self@.threshold,
    {
        self.new_wall_counter
    }
}

} // verus!
