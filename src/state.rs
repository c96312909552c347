//! The game state and its mode machine: menu, play and game over.
use vstd::prelude::*;

use crate::config::{
    MAX_OBSTACLES, MAX_SPACE_BETWEEN_OBSTACLE, MIN_SPACE_BETWEEN_OBSTACLE, MS_PER_TICK,
    PLAYER_SPEED_X, PLAYER_START_X, PLAYER_START_Y, SCREEN_HEIGHT, SCREEN_WIDTH, US_PER_MS,
};
use crate::course::{
    appended, ascending, course_wf, freshly_laid, lemma_course_bounds, lemma_spaced_ascending,
    lemma_spacing, next_origin, recycled, shifted, spaced, spacing_ok,
};
use crate::obstacle::Obstacle;
use crate::player::Player;
use crate::random::draw_between;

verus! {

/// The coarse phase of the game, which decides what a frame does.
#[derive(Clone, Copy, Debug, PartialEq, Eq, Structural)]
pub enum GameMode {
    Menu,
    Playing,
    End,
}

/// A key press, as far as the game tells keys apart.
#[derive(Clone, Copy, Debug, PartialEq, Eq, Structural)]
pub enum Key {
    /// Flaps during play.
    Flap,
    /// Starts a round from the menu.
    Play,
    /// Leaves the game from the menu.
    Quit,
    /// Any other key.
    Other,
}

/// What one frame asks of the program that runs the loop.
#[derive(Clone, Copy, Debug, PartialEq, Eq, Structural)]
pub struct Frame {
    /// The screen to draw for this frame.
    pub shown: GameMode,
    /// The player asked to leave the game.
    pub quit: bool,
}

/// Everything the game holds from one frame to the next.
pub struct State {
    pub mode: GameMode,
    pub player: Player,
    /// Frame time not yet spent on physics steps, in microseconds.
    pub accumulator_us: u64,
    pub obstacles: Vec<Obstacle>,
    pub score: i32,
}

/// The player as a round starts.
pub open spec fn start_player() -> Player {
    Player { x: PLAYER_START_X, y: PLAYER_START_Y, speed_y: 0 }
}

/// The player flies through the gap of `o`: same column, row inside the gap.
pub open spec fn scores_at(o: Obstacle, p: Player) -> bool {
    o.x == p.x && o.lets_through(p.y as int)
}

/// The player hits the wall of `o`: same column, row outside the gap.
pub open spec fn crashes_at(o: Obstacle, p: Player) -> bool {
    o.x == p.x && !o.lets_through(p.y as int)
}

/// One of the first `n` obstacles lets the player through.
pub open spec fn scored_before(obs: Seq<Obstacle>, p: Player, n: int) -> bool {
    exists|j: int| 0 <= j < n && #[trigger] scores_at(obs[j], p)
}

/// One of the first `n` obstacles stops the player.
pub open spec fn crashed_before(obs: Seq<Obstacle>, p: Player, n: int) -> bool {
    exists|j: int| 0 <= j < n && #[trigger] crashes_at(obs[j], p)
}

/// Some obstacle of the course lets the player through.
pub open spec fn scored(obs: Seq<Obstacle>, p: Player) -> bool {
    scored_before(obs, p, obs.len() as int)
}

/// Some obstacle of the course stops the player.
pub open spec fn crashed(obs: Seq<Obstacle>, p: Player) -> bool {
    crashed_before(obs, p, obs.len() as int)
}

/// The player has left the rows `0 ..= SCREEN_HEIGHT`.
pub open spec fn out_of_screen(p: Player) -> bool {
    p.y < 0 || p.y > SCREEN_HEIGHT
}

/// The mode after the collision and boundary checks of a step: the round
/// ends on a crash or when the player leaves the screen.
pub open spec fn judged_mode(mode: GameMode, obs: Seq<Obstacle>, p: Player) -> GameMode {
    if crashed(obs, p) || out_of_screen(p) {
        GameMode::End
    } else {
        mode
    }
}

/// `post` is what one physics step makes of `pre`, for some drawn spacing and
/// gap of the obstacle that replaces one that left the screen: the player
/// steps, the obstacles move and are recycled, and then the player scores or
/// crashes against the obstacles in its column.
pub open spec fn step_outcome(pre: State, post: State) -> bool {
    &&& post.player == pre.player.stepped()
    &&& recycled(shifted(pre.obstacles@), post.obstacles@)
    &&& post.score == pre.score + if scored(post.obstacles@, post.player) {
        1int
    } else {
        0int
    }
    &&& post.mode == judged_mode(pre.mode, post.obstacles@, post.player)
    &&& post.accumulator_us == pre.accumulator_us
}

/// A frame in the menu: the play key starts a round; any other key, or none,
/// changes nothing.
pub open spec fn menu_outcome(pre: State, key: Option<Key>, post: State) -> bool {
    if key == Some(Key::Play) {
        post.fresh_round()
    } else {
        post == pre
    }
}

/// A frame of play: the key and the frame time are taken in, and when more
/// than one tick of time has gathered, the carried time is dropped and one
/// physics step runs.
pub open spec fn play_outcome(
    pre: State,
    key: Option<Key>,
    frame_time_us: u32,
    post: State,
) -> bool {
    let s = pre.with_input(key, frame_time_us);
    if s.accumulator_us > MS_PER_TICK * US_PER_MS {
        step_outcome((State { accumulator_us: 0, ..s }), post)
    } else {
        post == s
    }
}

/// A frame of the game-over screen: any key returns to the menu.
pub open spec fn end_outcome(pre: State, key: Option<Key>, post: State) -> bool {
    if key is Some {
        post == (State { mode: GameMode::Menu, ..pre })
    } else {
        post == pre
    }
}

/// Every state that a restart leaves behind is well formed.
pub proof fn lemma_fresh_round_wf(s: State)
    requires
        s.fresh_round(),
    ensures
        s.wf(),
        ascending(s.obstacles@),
{
    let obs = s.obstacles@;
    lemma_spacing(obs, 0, obs.len() - 1);
    lemma_spaced_ascending(obs);
}

/// Restarting twice is restarting once: the states that two restarts in a row
/// leave behind agree on the mode, the player, the score and the carried time,
/// and each holds a freshly laid, well-formed course in ascending order.
pub proof fn lemma_restart_idempotent(once: State, twice: State)
    requires
        once.fresh_round(),
        twice.fresh_round(),
    ensures
        once.mode == twice.mode,
        once.player == twice.player,
        once.score == twice.score,
        once.accumulator_us == twice.accumulator_us,
        once.wf(),
        twice.wf(),
        ascending(once.obstacles@),
        ascending(twice.obstacles@),
{
    lemma_fresh_round_wf(once);
    lemma_fresh_round_wf(twice);
}

/// A physics step that drives the player exactly one row below the screen
/// ends the round on that same step.
pub proof fn lemma_fall_out_ends_round(pre: State, post: State)
    requires
        step_outcome(pre, post),
        pre.player.y + pre.player.next_speed() == SCREEN_HEIGHT + 1,
    ensures
        post.player.y == SCREEN_HEIGHT + 1,
        post.mode == GameMode::End,
{
}

/// A physics step never leaves the player above the top row.
pub proof fn lemma_step_keeps_player_below_top(pre: State, post: State)
    requires
        step_outcome(pre, post),
        pre.player.y + pre.player.next_speed() <= i32::MAX,
    ensures
        post.player.y >= 0,
{
}

/// A physics step keeps a well-formed course well formed, in ascending order
/// and of the same length.
pub proof fn lemma_step_keeps_course(pre: State, post: State)
    requires
        step_outcome(pre, post),
        course_wf(pre.obstacles@),
        pre.obstacles@.len() >= 2,
    ensures
        course_wf(post.obstacles@),
        ascending(post.obstacles@),
        post.obstacles@.len() == pre.obstacles@.len(),
{
    let before = pre.obstacles@;
    let mid = shifted(before);
    let after = post.obstacles@;
    assert(spaced(mid)) by {
        assert forall|i: int| 0 <= i < mid.len() - 1 implies spacing_ok(
            mid[i + 1].x - #[trigger] mid[i].x,
        ) by {
            assert(spacing_ok(before[i + 1].x - before[i].x));
        }
        assert forall|i: int| 0 <= i < mid.len() implies #[trigger] mid[i].wf() by {
            assert(before[i].wf());
        }
    }
    if mid[0].x < 0 {
        let rest = mid.drop_first();
        assert(spacing_ok(before[1].x - before[0].x));
        assert(after.drop_last() == rest);
        assert forall|i: int| 0 <= i < after.len() - 1 implies spacing_ok(
            after[i + 1].x - #[trigger] after[i].x,
        ) by {
            assert(after[i] == after.drop_last()[i]);
            assert(rest[i] == mid[i + 1]);
            if i < after.len() - 2 {
                assert(after[i + 1] == after.drop_last()[i + 1]);
                assert(rest[i + 1] == mid[i + 2]);
            }
        }
        assert forall|i: int| 0 <= i < after.len() implies #[trigger] after[i].wf() by {
            if i < after.len() - 1 {
                assert(after[i] == after.drop_last()[i]);
                assert(rest[i] == mid[i + 1]);
            }
        }
        assert(after[0] == rest[0]);
    }
    lemma_spaced_ascending(after);
}

/// When the first obstacle leaves the screen in a physics step, the others
/// move one column left and keep their order, and the obstacle appended
/// stands a drawn spacing after the last of them: the course keeps its
/// length and its ascending order.
pub proof fn lemma_step_replaces_front(pre: State, post: State)
    requires
        step_outcome(pre, post),
        course_wf(pre.obstacles@),
        pre.obstacles@.len() >= 2,
        pre.obstacles@[0].x - PLAYER_SPEED_X < 0,
    ensures
        post.obstacles@.len() == pre.obstacles@.len(),
        forall|i: int|
            0 <= i < post.obstacles@.len() - 1 ==> #[trigger] post.obstacles@[i]
                == pre.obstacles@[i + 1].moved(),
        spacing_ok(
            post.obstacles@.last().x - post.obstacles@[post.obstacles@.len() - 2].x,
        ),
        post.obstacles@.last().wf(),
        ascending(post.obstacles@),
{
    lemma_step_keeps_course(pre, post);
    let mid = shifted(pre.obstacles@);
    let after = post.obstacles@;
    assert(after.drop_last() == mid.drop_first());
    assert forall|i: int| 0 <= i < after.len() - 1 implies #[trigger] after[i]
        == pre.obstacles@[i + 1].moved() by {
        assert(after[i] == after.drop_last()[i]);
    }
}

/// A physics step that puts the player, still on screen, in the gap of an
/// obstacle in its column scores exactly one point and keeps the round going.
pub proof fn lemma_step_scores_in_gap(pre: State, post: State, k: int)
    requires
        step_outcome(pre, post),
        pre.wf(),
        pre.mode == GameMode::Playing,
        0 <= k < post.obstacles@.len(),
        scores_at(post.obstacles@[k], post.player),
        post.player.y <= SCREEN_HEIGHT,
    ensures
        post.score == pre.score + 1,
        post.mode == GameMode::Playing,
{
    lemma_step_keeps_course(pre, post);
    let after = post.obstacles@;
    assert(scored(after, post.player));
    assert forall|j: int| 0 <= j < after.len() implies !#[trigger] crashes_at(
        after[j],
        post.player,
    ) by {
        if j != k && after[j].x == post.player.x {
            assert(after[j].x != after[k].x);
        }
    }
}

/// A physics step that puts the player in the column of an obstacle but
/// outside its gap ends the round without a point.
pub proof fn lemma_step_crashes_outside_gap(pre: State, post: State, k: int)
    requires
        step_outcome(pre, post),
        course_wf(pre.obstacles@),
        pre.obstacles@.len() >= 2,
        0 <= k < post.obstacles@.len(),
        crashes_at(post.obstacles@[k], post.player),
    ensures
        post.score == pre.score,
        post.mode == GameMode::End,
{
    lemma_step_keeps_course(pre, post);
    let after = post.obstacles@;
    assert(crashed(after, post.player));
    assert forall|j: int| 0 <= j < after.len() implies !#[trigger] scores_at(
        after[j],
        post.player,
    ) by {
        if j != k && after[j].x == post.player.x {
            assert(after[j].x != after[k].x);
        }
    }
}

impl State {
    /// The invariant of the game state.
    pub open spec fn wf(self) -> bool {
        &&& self.player.wf()
        &&& course_wf(self.obstacles@)
        &&& self.accumulator_us <= MS_PER_TICK * US_PER_MS
        &&& self.mode == GameMode::Playing ==> self.ready()
    }

    /// What a physics step needs: a course to move along and a player that
    /// has not fallen out of the screen.
    pub open spec fn ready(self) -> bool {
        &&& self.obstacles@.len() >= 2
        &&& self.player.y <= SCREEN_HEIGHT
    }

    /// The state right after a round starts.
    pub open spec fn fresh_round(self) -> bool {
        &&& self.mode == GameMode::Playing
        &&& self.player == start_player()
        &&& self.accumulator_us == 0
        &&& self.score == 0
        &&& freshly_laid(self.obstacles@)
    }

    /// The state once a frame's key and elapsed time are taken in, before any
    /// physics step: the flap key flaps, and the frame time is added to the
    /// carried time.
    pub open spec fn with_input(self, key: Option<Key>, frame_time_us: u32) -> State {
        State {
            player: if key == Some(Key::Flap) {
                self.player.flapped()
            } else {
                self.player
            },
            accumulator_us: (self.accumulator_us + frame_time_us) as u64,
            ..self
        }
    }

    /// A new game, waiting in the menu.
    pub fn new() -> (s: State)
        ensures
            s.mode == GameMode::Menu,
            s.player == start_player(),
            s.accumulator_us == 0,
            s.obstacles@.len() == 0,
            s.score == 0,
            s.wf(),
    {
        State {
            mode: GameMode::Menu,
            player: Player::new(PLAYER_START_X, PLAYER_START_Y),
            accumulator_us: 0,
            obstacles: Vec::new(),
            score: 0,
        }
    }

    /// The column that the next obstacle is measured from.
    pub fn next_position(&self) -> (r: i32)
        requires
            course_wf(self.obstacles@),
        ensures
            r == next_origin(self.obstacles@),
    {
        if self.obstacles.len() == 0 {
            0
        } else {
            self.obstacles[self.obstacles.len() - 1].x
        }
    }

    /// Appends an obstacle `space` columns after the last one (after the left
    /// edge for an empty course), its gap drawn at random.
    pub fn append_obstacle(&mut self, space: i32)
        requires
            course_wf(old(self).obstacles@),
            old(self).obstacles@.len() < MAX_OBSTACLES,
            spacing_ok(space as int),
        ensures
            appended(old(self).obstacles@, final(self).obstacles@),
            final(self).obstacles@.last().x == next_origin(old(self).obstacles@) + space,
            course_wf(final(self).obstacles@),
            ascending(final(self).obstacles@),
            final(self).mode == old(self).mode,
            final(self).player == old(self).player,
            final(self).accumulator_us == old(self).accumulator_us,
            final(self).score == old(self).score,
    {
        proof {
            lemma_course_bounds(self.obstacles@);
        }
        let next_pos = self.next_position() + space;
        let obstacle = Obstacle::new(next_pos);
        self.obstacles.push(obstacle);
        proof {
            assert(self.obstacles@.drop_last() =~= old(self).obstacles@);
            lemma_spaced_ascending(self.obstacles@);
        }
    }

    /// Starts a round: the player at the start, no score, no carried time,
    /// and a new course laid over two screen widths.
    pub fn restart(&mut self)
        ensures
            final(self).fresh_round(),
            final(self).wf(),
    {
        self.mode = GameMode::Playing;
        self.player = Player::new(PLAYER_START_X, PLAYER_START_Y);
        self.accumulator_us = 0;
        self.score = 0;

        self.obstacles.clear();
        while self.next_position() < SCREEN_WIDTH * 2
            invariant
                self.mode == GameMode::Playing,
                self.player == start_player(),
                self.accumulator_us == 0,
                self.score == 0,
                course_wf(self.obstacles@),
                self.obstacles@.len() > 0 ==> spacing_ok(self.obstacles@[0].x as int),
                forall|i: int|
                    0 <= i < self.obstacles@.len() - 1 ==> #[trigger] self.obstacles@[i].x < 2
                        * SCREEN_WIDTH,
                next_origin(self.obstacles@) < 2 * SCREEN_WIDTH + MAX_SPACE_BETWEEN_OBSTACLE,
            decreases 2 * SCREEN_WIDTH + MAX_SPACE_BETWEEN_OBSTACLE - next_origin(self.obstacles@),
        {
            proof {
                let obs = self.obstacles@;
                if obs.len() > 0 {
                    lemma_spacing(obs, 0, obs.len() - 1);
                }
            }
            let space = draw_between(MIN_SPACE_BETWEEN_OBSTACLE, MAX_SPACE_BETWEEN_OBSTACLE);
            self.append_obstacle(space);
        }
        proof {
            lemma_fresh_round_wf(*self);
        }
    }
    /// Moves every obstacle one step left.
    fn shift_obstacles(&mut self)
        requires
            course_wf(old(self).obstacles@),
        ensures
            final(self).obstacles@ == shifted(old(self).obstacles@),
            final(self).mode == old(self).mode,
            final(self).player == old(self).player,
            final(self).accumulator_us == old(self).accumulator_us,
            final(self).score == old(self).score,
    {
        proof {
            lemma_course_bounds(self.obstacles@);
        }
        let mut i: usize = 0;
        while i < self.obstacles.len()
            invariant
                i <= self.obstacles@.len(),
                self.obstacles@.len() == old(self).obstacles@.len(),
                forall|j: int|
                    0 <= j < i ==> self.obstacles@[j] == #[trigger] old(self).obstacles@[j].moved(),
                forall|j: int|
                    i <= j < self.obstacles@.len() ==> self.obstacles@[j]
                        == #[trigger] old(self).obstacles@[j],
                forall|j: int|
                    0 <= j < old(self).obstacles@.len() ==> 0
                        <= #[trigger] old(self).obstacles@[j].x,
                self.mode == old(self).mode,
                self.player == old(self).player,
                self.accumulator_us == old(self).accumulator_us,
                self.score == old(self).score,
            decreases self.obstacles@.len() - i,
        {
            let mut o = self.obstacles[i];
            assert(o == old(self).obstacles@[i as int]);
            o.fixed_update();
            self.obstacles.set(i, o);
            i += 1;
        }
        proof {
            assert(self.obstacles@ =~= shifted(old(self).obstacles@));
        }
    }

    /// Replaces the first obstacle, which has left the screen, by one appended
    /// `space` columns after the last, its gap drawn at random.
    pub fn recycle_front(&mut self, space: i32)
        requires
            spaced(old(self).obstacles@),
            old(self).obstacles@.len() >= 2,
            -1 <= old(self).obstacles@[0].x < 0,
            spacing_ok(space as int),
        ensures
            appended(old(self).obstacles@.drop_first(), final(self).obstacles@),
            final(self).obstacles@.last().x == old(self).obstacles@.last().x + space,
            course_wf(final(self).obstacles@),
            ascending(final(self).obstacles@),
            final(self).mode == old(self).mode,
            final(self).player == old(self).player,
            final(self).accumulator_us == old(self).accumulator_us,
            final(self).score == old(self).score,
    {
        self.obstacles.remove(0);
        proof {
            let obs = self.obstacles@;
            assert(obs =~= old(self).obstacles@.drop_first());
            assert(spacing_ok(old(self).obstacles@[1].x - old(self).obstacles@[0].x));
            assert(spaced(obs)) by {
                assert forall|i: int| 0 <= i < obs.len() - 1 implies spacing_ok(
                    obs[i + 1].x - #[trigger] obs[i].x,
                ) by {
                    assert(obs[i] == old(self).obstacles@[i + 1]);
                    assert(obs[i + 1] == old(self).obstacles@[i + 2]);
                }
                assert forall|i: int| 0 <= i < obs.len() implies #[trigger] obs[i].wf() by {
                    assert(obs[i] == old(self).obstacles@[i + 1]);
                }
            }
        }
        self.append_obstacle(space);
    }

    /// Scores or ends the round for each obstacle in the player's column,
    /// then ends the round if the player has left the screen.
    pub fn resolve_collisions(&mut self)
        requires
            spaced(old(self).obstacles@),
            old(self).score < i32::MAX,
        ensures
            final(self).score == old(self).score + if scored(
                old(self).obstacles@,
                old(self).player,
            ) {
                1int
            } else {
                0int
            },
            final(self).mode == judged_mode(old(self).mode, old(self).obstacles@, old(self).player),
            final(self).obstacles == old(self).obstacles,
            final(self).player == old(self).player,
            final(self).accumulator_us == old(self).accumulator_us,
    {
        proof {
            lemma_spaced_ascending(self.obstacles@);
        }
        let player_x = self.player.x;
        let mut i: usize = 0;
        while i < self.obstacles.len()
            invariant
                i <= self.obstacles@.len(),
                self.obstacles == old(self).obstacles,
                self.player == old(self).player,
                self.accumulator_us == old(self).accumulator_us,
                player_x == self.player.x,
                spaced(self.obstacles@),
                ascending(self.obstacles@),
                old(self).score < i32::MAX,
                self.score == old(self).score + if scored_before(
                    self.obstacles@,
                    self.player,
                    i as int,
                ) {
                    1int
                } else {
                    0int
                },
                self.mode == if crashed_before(self.obstacles@, self.player, i as int) {
                    GameMode::End
                } else {
                    old(self).mode
                },
            decreases self.obstacles@.len() - i,
        {
            let o = self.obstacles[i];
            proof {
                let obs = self.obstacles@;
                let p = self.player;
                assert(scored_before(obs, p, i + 1) == (scored_before(obs, p, i as int)
                    || scores_at(obs[i as int], p)));
                assert(crashed_before(obs, p, i + 1) == (crashed_before(obs, p, i as int)
                    || crashes_at(obs[i as int], p)));
                if o.x == player_x {
                    assert forall|j: int| 0 <= j < i implies !#[trigger] scores_at(obs[j], p) by {
                        assert(obs[j].x < obs[i as int].x);
                    }
                }
            }
            if o.x == player_x {
                let player_y = self.player.y;
                if o.passes(player_y) {
                    self.score += 1;
                } else {
                    self.mode = GameMode::End;
                }
            }
            i += 1;
        }
        if self.player.y < 0 || self.player.y > SCREEN_HEIGHT {
            self.mode = GameMode::End;
        }
    }

    /// One physics step: the player falls, the obstacles move, an obstacle
    /// that left the screen is replaced, and the player scores or crashes.
    pub fn fixed_update(&mut self)
        requires
            old(self).wf(),
            old(self).ready(),
            old(self).score < i32::MAX,
        ensures
            step_outcome(*old(self), *final(self)),
            final(self).obstacles@.len() == old(self).obstacles@.len(),
            final(self).wf(),
    {
        self.player.fixed_update();
        self.shift_obstacles();
        proof {
            let obs = self.obstacles@;
            let before = old(self).obstacles@;
            assert(spaced(obs)) by {
                assert forall|i: int| 0 <= i < obs.len() - 1 implies spacing_ok(
                    obs[i + 1].x - #[trigger] obs[i].x,
                ) by {
                    assert(spacing_ok(before[i + 1].x - before[i].x));
                }
                assert forall|i: int| 0 <= i < obs.len() implies #[trigger] obs[i].wf() by {
                    assert(before[i].wf());
                }
            }
        }
        if self.obstacles[0].x < 0 {
            let space = draw_between(MIN_SPACE_BETWEEN_OBSTACLE, MAX_SPACE_BETWEEN_OBSTACLE);
            self.recycle_front(space);
        }
        self.resolve_collisions();
    }

    /// Handles a frame in the menu. Returns whether the player asked to quit.
    pub fn main_menu(&mut self, key: Option<Key>) -> (quit: bool)
        requires
            old(self).wf(),
        ensures
            quit == (key == Some(Key::Quit)),
            menu_outcome(*old(self), key, *final(self)),
            final(self).wf(),
    {
        match key {
            Some(Key::Play) => {
                self.restart();
                false
            },
            Some(Key::Quit) => true,
            _ => false,
        }
    }

    /// Handles a frame of play: a flap on the flap key, then at most one
    /// physics step once more than a tick of time has gathered.
    pub fn playing(&mut self, key: Option<Key>, frame_time_us: u32)
        requires
            old(self).wf(),
            old(self).mode == GameMode::Playing,
            old(self).score < i32::MAX,
        ensures
            play_outcome(*old(self), key, frame_time_us, *final(self)),
            final(self).wf(),
    {
        match key {
            Some(Key::Flap) => self.player.flap(),
            _ => {},
        }

        self.accumulator_us += frame_time_us as u64;
        if self.accumulator_us > MS_PER_TICK * US_PER_MS {
            self.accumulator_us = 0;
            self.fixed_update();
        }
    }

    /// Handles a frame of the game-over screen: any key returns to the menu.
    pub fn end(&mut self, key: Option<Key>)
        requires
            old(self).wf(),
        ensures
            end_outcome(*old(self), key, *final(self)),
            final(self).wf(),
    {
        match key {
            Some(_) => {
                self.mode = GameMode::Menu;
            },
            None => {},
        }
    }

    /// Runs one frame: the current mode decides what the key and the elapsed
    /// time do. The frame reports the screen to draw, which is the one of the
    /// mode the frame started in.
    pub fn tick(&mut self, key: Option<Key>, frame_time_us: u32) -> (frame: Frame)
        requires
            old(self).wf(),
            old(self).mode == GameMode::Playing ==> old(self).score < i32::MAX,
        ensures
            frame.shown == old(self).mode,
            frame.quit == (old(self).mode == GameMode::Menu && key == Some(Key::Quit)),
            old(self).mode == GameMode::Menu ==> menu_outcome(*old(self), key, *final(self)),
            old(self).mode == GameMode::Playing ==> play_outcome(
                *old(self),
                key,
                frame_time_us,
                *final(self),
            ),
            old(self).mode == GameMode::End ==> end_outcome(*old(self), key, *final(self)),
            final(self).wf(),
    {
        let shown = self.mode;
        let quit = match self.mode {
            GameMode::Menu => self.main_menu(key),
            GameMode::Playing => {
                self.playing(key, frame_time_us);
                false
            },
            GameMode::End => {
                self.end(key);
                false
            },
        };
        Frame { shown, quit }
    }
}

} // verus!
