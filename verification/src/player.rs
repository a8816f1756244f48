//! The bird: its height and speed in fine units, and the cell they put it in.

use crate::input::Command;
use crate::screen::Pixel;
use crate::units::{cell_of, cell_origin, fits, from_cell, to_cell};
use vstd::prelude::*;

verus! {

/// The column the bird flies in.
pub const PLAYER_COLUMN: isize = 1;

/// The row the bird starts in: the middle of the playfield.
pub const START_ROW: isize = 15;

/// Speed added by gravity in one tick: a sixtieth of a cell, downward.
pub const GRAVITY_PER_TICK: isize = 2;

/// Speed right after a flap: half a cell per tick, upward.
pub const FLAP_IMPULSE: isize = -60;

/// The bird as a mathematical value. `height`, `velocity` and `score` count
/// fine units; heights grow downward, as rows do.
pub struct PlayerView {
    pub column: int,
    pub row: int,
    pub height: int,
    pub velocity: int,
    pub score: int,
}

impl PlayerView {
    /// The bird at the start of a life: mid-height, at rest, with no score.
    pub open spec fn initial() -> PlayerView {
        PlayerView {
            column: PLAYER_COLUMN as int,
            row: START_ROW as int,
            height: cell_origin(START_ROW as int),
            velocity: 0,
            score: 0,
        }
    }

    /// After a flap the speed is `FLAP_IMPULSE`, whatever it was.
    pub open spec fn flapped(self) -> PlayerView {
        PlayerView { velocity: FLAP_IMPULSE as int, ..self }
    }

    /// The bird after a command: a flap flaps, anything else changes nothing.
    pub open spec fn commanded(self, command: Option<Command>) -> PlayerView {
        if command == Some(Command::Flap) {
            self.flapped()
        } else {
            self
        }
    }

    /// One step of motion: gravity is added to the speed, then the new speed
    /// to the height.
    pub open spec fn integrated(self, gravity: int) -> PlayerView {
        PlayerView {
            velocity: self.velocity + gravity,
            height: self.height + self.velocity + gravity,
            ..self
        }
    }

    /// The row follows the height, truncated toward zero.
    pub open spec fn projected(self) -> PlayerView {
        PlayerView { row: cell_of(self.height), ..self }
    }

    /// The score grows by `amount`.
    pub open spec fn scored(self, amount: int) -> PlayerView {
        PlayerView { score: self.score + amount, ..self }
    }

    /// The bird after `n` ticks without a flap.
    pub open spec fn fallen(self, gravity: int, n: nat) -> PlayerView
        decreases n,
    {
        if n == 0 {
            self
        } else {
            self.fallen(gravity, (n - 1) as nat).integrated(gravity)
        }
    }

    /// The bird after one tick for each command in turn: the command acts,
    /// then the bird moves. Row and score are left as they were.
    pub open spec fn driven(self, commands: Seq<Option<Command>>, gravity: int) -> PlayerView
        decreases commands.len(),
    {
        if commands.len() == 0 {
            self
        } else {
            self.driven(commands.drop_last(), gravity).commanded(commands.last()).integrated(
                gravity,
            )
        }
    }

    /// Whether one step of motion stays within machine integers.
    pub open spec fn can_integrate(self, gravity: int) -> bool {
        fits(self.velocity + gravity) && fits(self.height + self.velocity + gravity)
    }
}

/// Free fall in closed form: after `n` ticks without a flap the speed has
/// grown by `n` times gravity, and the height by `n` times the first speed
/// plus gravity times the `n`-th triangular number. Nothing else changes.
pub proof fn lemma_fallen_closed_form(p: PlayerView, gravity: int, n: nat)
    ensures
        p.fallen(gravity, n).velocity == p.velocity + n * gravity,
        2 * p.fallen(gravity, n).height == 2 * p.height + 2 * n * p.velocity + gravity * n * (n + 1),
        p.fallen(gravity, n).score == p.score,
        p.fallen(gravity, n).row == p.row,
        p.fallen(gravity, n).column == p.column,
    decreases n,
{
    if n > 0 {
        let m = (n - 1) as nat;
        lemma_fallen_closed_form(p, gravity, m);
        let (h, v) = (p.height, p.velocity);
        let (hm, vm) = (p.fallen(gravity, m).height, p.fallen(gravity, m).velocity);
        let (hn, vn) = (p.fallen(gravity, n).height, p.fallen(gravity, n).velocity);
        assert(vn == v + n * gravity) by (nonlinear_arith)
            requires
                m + 1 == n,
                vm == v + m * gravity,
                vn == vm + gravity,
        ;
        assert(2 * hn == 2 * h + 2 * n * v + gravity * n * (n + 1)) by (nonlinear_arith)
            requires
                m + 1 == n,
                vm == v + m * gravity,
                2 * hm == 2 * h + 2 * m * v + gravity * m * (m + 1),
                hn == hm + vm + gravity,
        ;
    } else {
        assert(n * gravity == 0 && 2 * n * p.velocity + gravity * n * (n + 1) == 0)
            by (nonlinear_arith)
            requires
                n == 0,
        ;
    }
}

/// Without a flap among the commands, the bird is in free fall.
pub proof fn lemma_driven_without_flap(p: PlayerView, commands: Seq<Option<Command>>, gravity: int)
    requires
        forall|k: int| 0 <= k < commands.len() ==> commands[k] != Some(Command::Flap),
    ensures
        p.driven(commands, gravity) == p.fallen(gravity, commands.len()),
    decreases commands.len(),
{
    if commands.len() > 0 {
        lemma_driven_without_flap(p, commands.drop_last(), gravity);
    }
}

/// The bird.
pub struct Player {
    pixel: Pixel,
    height: isize,
    velocity: isize,
    score: isize,
}

impl View for Player {
    type V = PlayerView;

    closed spec fn view(&self) -> PlayerView {
        PlayerView {
            column: self.pixel.x as int,
            row: self.pixel.y as int,
            height: self.height as int,
            velocity: self.velocity as int,
            score: self.score as int,
        }
    }
}

impl Player {
    /// The bird at the start of a life.
    pub fn new() -> (p: Player)
        ensures
            p@ == PlayerView::initial(),
    {
        Player {
            pixel: Pixel { x: PLAYER_COLUMN, y: START_ROW },
            height: from_cell(START_ROW),
            velocity: 0,
            score: 0,
        }
    }

    /// Flaps: the speed becomes `FLAP_IMPULSE`. Flaps do not add up.
    pub fn flap(&mut self)
        ensures
            final(self)@ == old(self)@.flapped(),
    {
        self.velocity = FLAP_IMPULSE;
    }

    /// Moves the bird by one tick under the given gravity, in fine units per
    /// tick: gravity is added to the speed, then the new speed to the height.
    pub fn integrate(&mut self, gravity_per_tick: isize)
        requires
            old(self)@.can_integrate(gravity_per_tick as int),
        ensures
            final(self)@ == old(self)@.integrated(gravity_per_tick as int),
    {
        self.velocity += gravity_per_tick;
        self.height += self.velocity;
    }

    /// Recomputes the bird's row from its height. The row is not clamped: a
    /// row off the playfield says that the bird has left it.
    pub fn height_to_pixel(&mut self)
        ensures
            final(self)@ == old(self)@.projected(),
    {
        self.pixel.y = to_cell(self.height);
    }

    /// Adds to the score.
    pub fn add_score(&mut self, amount: isize)
        requires
            fits(old(self)@.score + amount),
        ensures
            final(self)@ == old(self)@.scored(amount as int),
    {
        self.score += amount;
    }

    /// The bird's grid position.
    pub fn pixel(&self) -> (p: Pixel)
        ensures
            p.x == self@.column,
            p.y == self@.row,
    {
        self.pixel
    }

    /// The bird's height in fine units.
    pub fn height(&self) -> (h: isize)
        ensures
            h == self@.height,
    {
        self.height
    }

    /// The bird's speed in fine units per tick; positive is downward.
    pub fn velocity(&self) -> (v: isize)
        ensures
            v == self@.velocity,
    {
        self.velocity
    }

    /// The score in fine units.
    pub fn score(&self) -> (s: isize)
        ensures
            s == self@.score,
    {
        self.score
    }

    /// The score in whole cells.
    pub fn score_cells(&self) -> (s: isize)
        ensures
            s == cell_of(self@.score),
    {
        to_cell(self.score)
    }
}

} // verus!
