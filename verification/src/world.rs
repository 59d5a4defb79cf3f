//! The whole game: its state, and what one frame makes of it.

use vstd::prelude::*;
use crate::combat::{
    blasts, hit_count, hits_any, lemma_no_double_scoring, lemma_survivor_untouched,
    lemma_sweep_leaves_survivors, lemma_total_points_not_negative, mark_hits, survivors, sweep,
    total_points, touching, untouched_by, Explosion,
};
use crate::geometry::{all_wf, collides, none_collided, Screen, Shape, MAX_FRAME_MS, MAX_SPEED};
use crate::motion::{
    advance_bullets, advance_enemies, bullet_from, bullet_of, bullets_moved, cooled_down,
    enemies_moved, lemma_bullets_moved_wf, lemma_enemies_moved_wf, lemma_steered_wf, may_fire,
    steer, steered, Steering,
};
use crate::random::{draw_enemy, spawn_ok};
use crate::score::{raised, record};

verus! {

/// Edge length of the ship.
pub const SHIP_SIZE: i64 = 3_200;

/// Speed of the ship, in units per second.
pub const SHIP_SPEED: i64 = 20_000;

/// Colour of the ship.
pub const SHIP_COLOR: u32 = 0xb1de78;

/// Which screen the game shows.
#[derive(Clone, Copy, Debug, PartialEq, Eq, Structural)]
pub enum GameState {
    MainMenu,
    Playing,
    Paused,
    GameOver,
}

/// What the player asks for in one frame.
#[derive(Clone, Copy, Debug, PartialEq, Eq, Structural)]
pub struct Input {
    /// Held keys that steer the ship.
    pub keys: Steering,
    /// The fire key is held.
    pub fire: bool,
    /// Pause was pressed during play.
    pub pause: bool,
    /// Play was chosen in the menu.
    pub start: bool,
    /// Resume was pressed during a pause.
    pub resume: bool,
    /// The end of a run was acknowledged.
    pub acknowledge: bool,
    /// Quit was chosen in the menu.
    pub quit: bool,
}

/// Everything one frame is given from outside.
#[derive(Clone, Copy, Debug, PartialEq, Eq, Structural)]
pub struct Frame {
    pub input: Input,
    /// The visible area during this frame.
    pub screen: Screen,
    /// Time since the program started, in milliseconds.
    pub now_ms: u64,
    /// Time since the last frame, in milliseconds.
    pub dt_ms: u64,
    /// The enemy that enters in this frame, if one does.
    pub spawn: Option<Shape>,
}

/// What the host has to do after a frame.
#[derive(Debug)]
pub struct FrameEffects {
    /// A bullet was fired: play its sound.
    pub shot_fired: bool,
    /// The enemies destroyed in this frame, one entry for each hit.
    pub explosions: Vec<Explosion>,
    /// The record to write to the store, if the run ended on one.
    pub save_high_score: Option<u32>,
    /// The player chose to leave: end the program.
    pub quit: bool,
}

/// The game.
#[derive(Debug)]
pub struct World {
    pub state: GameState,
    pub ship: Shape,
    pub enemies: Vec<Shape>,
    pub bullets: Vec<Shape>,
    pub score: u32,
    pub high_score: u32,
    /// When the last bullet was fired, if one was.
    pub last_shot: Option<u64>,
}

/// The game as a value: sequences in place of vectors.
pub struct WorldView {
    pub state: GameState,
    pub ship: Shape,
    pub enemies: Seq<Shape>,
    pub bullets: Seq<Shape>,
    pub score: u32,
    pub high_score: u32,
    pub last_shot: Option<u64>,
}

impl View for World {
    type V = WorldView;

    open spec fn view(&self) -> WorldView {
        WorldView {
            state: self.state,
            ship: self.ship,
            enemies: self.enemies@,
            bullets: self.bullets@,
            score: self.score,
            high_score: self.high_score,
            last_shot: self.last_shot,
        }
    }
}

impl Frame {
    /// A frame is well formed when its screen is, it is not longer than
    /// `MAX_FRAME_MS`, and the enemy that enters is well formed and not
    /// flagged.
    pub open spec fn wf(self) -> bool {
        &&& self.screen.wf()
        &&& self.dt_ms <= MAX_FRAME_MS
        &&& self.spawn matches Some(e) ==> e.wf() && !e.collided
    }

    /// Decides [`Frame::wf`].
    pub fn is_valid(&self) -> (b: bool)
        ensures
            b == self.wf(),
    {
        let spawn_ok = match self.spawn {
            Some(e) => e.is_valid() && !e.collided,
            None => true,
        };
        self.screen.is_valid() && self.dt_ms <= MAX_FRAME_MS && spawn_ok
    }
}

impl WorldView {
    /// A game is well formed when all its shapes are, none of them is
    /// flagged, a bullet of the ship would not be too fast, and the score
    /// is not above the record.
    pub open spec fn wf(self) -> bool {
        &&& self.ship.wf()
        &&& !self.ship.collided
        &&& 2 * self.ship.speed <= MAX_SPEED
        &&& all_wf(self.enemies)
        &&& all_wf(self.bullets)
        &&& none_collided(self.enemies)
        &&& none_collided(self.bullets)
        &&& self.score <= self.high_score
    }
}

/// The ship in this frame, after steering.
pub open spec fn ship_in(w: WorldView, f: Frame) -> Shape {
    steered(w.ship, f.input.keys, f.screen, f.dt_ms as int)
}

/// Whether a bullet is fired in this frame of play.
pub open spec fn fires(w: WorldView, f: Frame) -> bool {
    f.input.fire && cooled_down(w.last_shot, f.now_ms)
}

/// The enemies on the screen in this frame: those there were and the one
/// that enters, after their move.
pub open spec fn enemies_in(w: WorldView, f: Frame) -> Seq<Shape> {
    let all = match f.spawn {
        Some(e) => w.enemies.push(e),
        None => w.enemies,
    };
    enemies_moved(all, f.dt_ms as int, f.screen.height as int)
}

/// The bullets on the screen in this frame: those there were and the one
/// that is fired, after their move.
pub open spec fn bullets_in(w: WorldView, f: Frame) -> Seq<Shape> {
    let all = if fires(w, f) {
        w.bullets.push(bullet_of(ship_in(w, f)))
    } else {
        w.bullets
    };
    bullets_moved(all, f.dt_ms as int)
}

/// Whether the run ends in this frame of play: an enemy overlaps the
/// ship.
pub open spec fn loses(w: WorldView, f: Frame) -> bool {
    hit_count(ship_in(w, f), enemies_in(w, f)) > 0
}

/// The explosions of this frame of play.
pub open spec fn blasts_in(w: WorldView, f: Frame) -> Seq<Explosion> {
    blasts(enemies_in(w, f), bullets_in(w, f))
}

/// The game after one frame of play.
pub open spec fn after_play(w: WorldView, f: Frame) -> WorldView {
    let score = raised(w.score as int, total_points(blasts_in(w, f))) as u32;
    WorldView {
        state: if loses(w, f) {
            GameState::GameOver
        } else if f.input.pause {
            GameState::Paused
        } else {
            GameState::Playing
        },
        ship: ship_in(w, f),
        enemies: survivors(enemies_in(w, f), bullets_in(w, f)),
        bullets: survivors(bullets_in(w, f), enemies_in(w, f)),
        score,
        high_score: if score > w.high_score {
            score
        } else {
            w.high_score
        },
        last_shot: if fires(w, f) {
            Some(f.now_ms)
        } else {
            w.last_shot
        },
    }
}

/// The game at the start of a run: nothing on the screen but the ship, in
/// the middle, and no points yet.
pub open spec fn restarted(w: WorldView, screen: Screen) -> WorldView {
    WorldView {
        state: GameState::Playing,
        ship: Shape { x: (screen.width / 2) as i64, y: (screen.height / 2) as i64, ..w.ship },
        enemies: Seq::empty(),
        bullets: Seq::empty(),
        score: 0,
        ..w
    }
}

/// The game after one frame.
pub open spec fn after_frame(w: WorldView, f: Frame) -> WorldView {
    match w.state {
        GameState::MainMenu => if f.input.quit {
            w
        } else if f.input.start {
            restarted(w, f.screen)
        } else {
            w
        },
        GameState::Playing => after_play(w, f),
        GameState::Paused => if f.input.resume {
            WorldView { state: GameState::Playing, ..w }
        } else {
            w
        },
        GameState::GameOver => if f.input.acknowledge {
            WorldView { state: GameState::MainMenu, ..w }
        } else {
            w
        },
    }
}

/// The record that this frame asks to be written: the run ends in it, and
/// the score stood at the record when it did.
pub open spec fn record_to_save(w: WorldView, f: Frame) -> Option<u32> {
    if w.state == GameState::Playing && loses(w, f) && w.score == w.high_score {
        Some(w.high_score)
    } else {
        None
    }
}

/// The game after some frames, one after the other.
pub open spec fn after_frames(w: WorldView, frames: Seq<Frame>) -> WorldView
    decreases frames.len(),
{
    if frames.len() == 0 {
        w
    } else {
        after_frame(after_frames(w, frames.drop_last()), frames.last())
    }
}

impl World {
    /// See [`WorldView::wf`].
    pub open spec fn wf(&self) -> bool {
        self@.wf()
    }

    /// A new game, in the menu, with the ship in the middle of the screen
    /// and the record that was stored.
    pub fn new(screen: &Screen, high_score: u32) -> (w: World)
        requires
            screen.wf(),
        ensures
            w.wf(),
            w.state == GameState::MainMenu,
            w.ship == (Shape {
                x: (screen.width / 2) as i64,
                y: (screen.height / 2) as i64,
                size: SHIP_SIZE,
                speed: SHIP_SPEED,
                color: SHIP_COLOR,
                collided: false,
            }),
            w.enemies@.len() == 0,
            w.bullets@.len() == 0,
            w.score == 0,
            w.high_score == high_score,
            w.last_shot is None,
    {
        World {
            state: GameState::MainMenu,
            ship: Shape {
                x: screen.width / 2,
                y: screen.height / 2,
                size: SHIP_SIZE,
                speed: SHIP_SPEED,
                color: SHIP_COLOR,
                collided: false,
            },
            enemies: Vec::new(),
            bullets: Vec::new(),
            score: 0,
            high_score,
            last_shot: None,
        }
    }

    /// Decides [`World::wf`].
    pub fn is_valid(&self) -> (b: bool)
        ensures
            b == self.wf(),
    {
        self.ship.is_valid() && !self.ship.collided && self.ship.speed <= MAX_SPEED / 2
            && all_clear(&self.enemies) && all_clear(&self.bullets) && self.score
            <= self.high_score
    }

    /// Starts a run: clears the screen and the score and puts the ship in
    /// the middle.
    pub fn restart(&mut self, screen: &Screen)
        requires
            old(self).wf(),
            screen.wf(),
        ensures
            final(self).wf(),
            final(self)@ == restarted(old(self)@, *screen),
    {
        self.enemies = Vec::new();
        self.bullets = Vec::new();
        self.ship.x = screen.width / 2;
        self.ship.y = screen.height / 2;
        self.score = 0;
        self.state = GameState::Playing;
        assert(self@.enemies =~= Seq::<Shape>::empty());
        assert(self@.bullets =~= Seq::<Shape>::empty());
    }

    /// One frame of play: steers the ship, fires, lets the new enemy in,
    /// moves enemies and bullets and drops those that left the screen, ends
    /// the run if an enemy overlaps the ship, scores the enemies that
    /// bullets overlap and removes both.
    pub fn play(&mut self, frame: &Frame) -> (fx: FrameEffects)
        requires
            old(self).wf(),
            frame.wf(),
        ensures
            final(self).wf(),
            final(self)@ == after_play(old(self)@, *frame),
            fx.shot_fired == fires(old(self)@, *frame),
            fx.explosions@ == blasts_in(old(self)@, *frame),
            fx.save_high_score == (if loses(old(self)@, *frame) && old(self).score == old(
                self,
            ).high_score {
                Some(old(self).high_score)
            } else {
                None
            }),
            !fx.quit,
            final(self).score >= old(self).score,
            final(self).high_score >= old(self).high_score,
            forall|i: int, j: int|
                0 <= i < final(self).enemies@.len() && 0 <= j < final(self).bullets@.len()
                    ==> !#[trigger] collides(final(self).bullets@[j], final(self).enemies@[i]),
    {
        let ghost w = self@;
        let ship = steer(&self.ship, &frame.input.keys, &frame.screen, frame.dt_ms);
        self.ship = ship;
        let fired = frame.input.fire && may_fire(self.last_shot, frame.now_ms);
        if fired {
            self.bullets.push(bullet_from(&ship));
            self.last_shot = Some(frame.now_ms);
        }
        match frame.spawn {
            Some(e) => {
                self.enemies.push(e);
            },
            None => {},
        }
        advance_enemies(&mut self.enemies, frame.dt_ms, frame.screen.height);
        advance_bullets(&mut self.bullets, frame.dt_ms);
        let ghost enemies = self.enemies@;
        let ghost bullets = self.bullets@;
        assert(enemies == enemies_in(w, *frame));
        assert(bullets == bullets_in(w, *frame));
        let lost = hits_any(&self.ship, &self.enemies);
        let save_high_score = if lost && self.score == self.high_score {
            Some(self.high_score)
        } else {
            None
        };
        let (explosions, score) = mark_hits(&mut self.enemies, &mut self.bullets, self.score);
        self.score = score;
        self.high_score = record(self.high_score, score);
        sweep(&mut self.enemies);
        sweep(&mut self.bullets);
        self.state = if lost {
            GameState::GameOver
        } else if frame.input.pause {
            GameState::Paused
        } else {
            GameState::Playing
        };
        proof {
            lemma_sweep_leaves_survivors(enemies, bullets);
            lemma_sweep_leaves_survivors(bullets, enemies);
            lemma_kept_shapes(enemies, untouched_by(bullets));
            lemma_kept_shapes(bullets, untouched_by(enemies));
            lemma_total_points_not_negative(explosions@);
            lemma_survivors_apart(enemies, bullets);
        }
        FrameEffects { shot_fired: fired, explosions, save_high_score, quit: false }
    }

    /// One frame, whatever the game shows. In the menu, quitting is
    /// reported and starting begins a run; during play the frame is played;
    /// a pause lasts until play is resumed; a finished run returns to the
    /// menu once acknowledged.
    pub fn update(&mut self, frame: &Frame) -> (fx: FrameEffects)
        requires
            old(self).wf(),
            frame.wf(),
        ensures
            final(self).wf(),
            final(self)@ == after_frame(old(self)@, *frame),
            fx.quit == (old(self).state == GameState::MainMenu && frame.input.quit),
            fx.shot_fired == (old(self).state == GameState::Playing && fires(
                old(self)@,
                *frame,
            )),
            fx.explosions@ == (if old(self).state == GameState::Playing {
                blasts_in(old(self)@, *frame)
            } else {
                Seq::empty()
            }),
            fx.save_high_score == record_to_save(old(self)@, *frame),
            final(self).high_score >= old(self).high_score,
    {
        let mut fx = FrameEffects {
            shot_fired: false,
            explosions: Vec::new(),
            save_high_score: None,
            quit: false,
        };
        match self.state {
            GameState::MainMenu => {
                if frame.input.quit {
                    fx.quit = true;
                } else if frame.input.start {
                    self.restart(&frame.screen);
                }
            },
            GameState::Playing => {
                fx = self.play(frame);
            },
            GameState::Paused => {
                if frame.input.resume {
                    self.state = GameState::Playing;
                }
            },
            GameState::GameOver => {
                if frame.input.acknowledge {
                    self.state = GameState::MainMenu;
                }
            },
        }
        fx
    }

    /// One frame with an enemy drawn at random: during play it rolls for a
    /// new enemy, then updates the game with what was drawn. Returns the
    /// frame that was played, with the enemy in it, and its effects.
    pub fn tick(&mut self, input: Input, screen: Screen, now_ms: u64, dt_ms: u64) -> (r: (
        Frame,
        FrameEffects,
    ))
        requires
            old(self).wf(),
            screen.wf(),
            dt_ms <= MAX_FRAME_MS,
        ensures
            final(self).wf(),
            r.0 == (Frame { input, screen, now_ms, dt_ms, spawn: r.0.spawn }),
            r.0.wf(),
            old(self).state != GameState::Playing ==> r.0.spawn is None,
            r.0.spawn matches Some(e) ==> spawn_ok(e, screen.width as int),
            final(self)@ == after_frame(old(self)@, r.0),
            r.1.quit == (old(self).state == GameState::MainMenu && input.quit),
            r.1.shot_fired == (old(self).state == GameState::Playing && fires(old(self)@, r.0)),
            r.1.explosions@ == (if old(self).state == GameState::Playing {
                blasts_in(old(self)@, r.0)
            } else {
                Seq::empty()
            }),
            r.1.save_high_score == record_to_save(old(self)@, r.0),
            final(self).high_score >= old(self).high_score,
    {
        let spawn = match self.state {
            GameState::Playing => draw_enemy(screen.width),
            _ => None,
        };
        let frame = Frame { input, screen, now_ms, dt_ms, spawn };
        let fx = self.update(&frame);
        (frame, fx)
    }
}

/// Whether every shape of a vector is well formed and none is flagged.
pub fn all_clear(shapes: &Vec<Shape>) -> (b: bool)
    ensures
        b == (all_wf(shapes@) && none_collided(shapes@)),
{
    let mut i: usize = 0;
    while i < shapes.len()
        invariant
            i <= shapes.len(),
            forall|k: int| 0 <= k < i ==> (#[trigger] shapes@[k]).wf() && !shapes@[k].collided,
        decreases shapes.len() - i,
    {
        if !shapes[i].is_valid() || shapes[i].collided {
            return false;
        }
        i += 1;
    }
    true
}

/// What a filter keeps of well-formed, unflagged shapes is well formed
/// and unflagged.
pub proof fn lemma_kept_shapes(shapes: Seq<Shape>, pick: spec_fn(Shape) -> bool)
    ensures
        all_wf(shapes) ==> all_wf(shapes.filter(pick)),
        none_collided(shapes) ==> none_collided(shapes.filter(pick)),
{
    let kept = shapes.filter(pick);
    assert forall|k: int| 0 <= k < kept.len() implies shapes.contains(#[trigger] kept[k]) by {
        assert(kept.contains(kept[k]));
        shapes.lemma_filter_contains_rev(pick, kept[k]);
    }
}

/// No enemy that is left overlaps a bullet that is left.
pub proof fn lemma_survivors_apart(enemies: Seq<Shape>, bullets: Seq<Shape>)
    ensures
        forall|i: int, j: int|
            0 <= i < survivors(enemies, bullets).len() && 0 <= j < survivors(
                bullets,
                enemies,
            ).len() ==> !#[trigger] collides(
                survivors(bullets, enemies)[j],
                survivors(enemies, bullets)[i],
            ),
{
    let left = survivors(enemies, bullets);
    let shots = survivors(bullets, enemies);
    assert forall|i: int, j: int| 0 <= i < left.len() && 0 <= j < shots.len() implies !#[trigger] collides(
        shots[j],
        left[i],
    ) by {
        lemma_survivor_untouched(enemies, bullets, i);
        lemma_survivor_untouched(bullets, enemies, j);
        let at = choose|at: int| 0 <= at < bullets.len() && bullets[at] == shots[j];
        if collides(shots[j], left[i]) {
            bullets.lemma_filter_contains(touching(left[i]), at);
        }
    }
}

/// Every frame keeps a well-formed game well formed: sizes stay positive,
/// no flagged shape is left behind, and the score stays at or below the
/// record.
pub proof fn lemma_frame_keeps_wf(w: WorldView, f: Frame)
    requires
        w.wf(),
        f.wf(),
    ensures
        after_frame(w, f).wf(),
{
    if w.state == GameState::Playing {
        let ship = ship_in(w, f);
        lemma_steered_wf(w.ship, f.input.keys, f.screen, f.dt_ms as int);
        let all_enemies = match f.spawn {
            Some(e) => w.enemies.push(e),
            None => w.enemies,
        };
        let all_bullets = if fires(w, f) {
            w.bullets.push(bullet_of(ship))
        } else {
            w.bullets
        };
        lemma_enemies_moved_wf(all_enemies, f.dt_ms as int, f.screen.height as int);
        lemma_bullets_moved_wf(all_bullets, f.dt_ms as int);
        lemma_kept_shapes(enemies_in(w, f), untouched_by(bullets_in(w, f)));
        lemma_kept_shapes(bullets_in(w, f), untouched_by(enemies_in(w, f)));
        lemma_total_points_not_negative(blasts_in(w, f));
    }
}

/// A well-formed game stays well formed through any run of well-formed
/// frames.
pub proof fn lemma_frames_keep_wf(w: WorldView, frames: Seq<Frame>)
    requires
        w.wf(),
        forall|k: int| 0 <= k < frames.len() ==> (#[trigger] frames[k]).wf(),
    ensures
        after_frames(w, frames).wf(),
    decreases frames.len(),
{
    if frames.len() > 0 {
        lemma_frames_keep_wf(w, frames.drop_last());
        lemma_frame_keeps_wf(after_frames(w, frames.drop_last()), frames.last());
    }
}

/// What a frame of play has scored, it does not score again: the enemies
/// and bullets that it leaves set off no explosion among themselves.
pub proof fn lemma_play_leaves_nothing_to_score(w: WorldView, f: Frame)
    ensures
        blasts(after_play(w, f).enemies, after_play(w, f).bullets) == Seq::<Explosion>::empty(),
        total_points(blasts(after_play(w, f).enemies, after_play(w, f).bullets)) == 0,
{
    lemma_no_double_scoring(enemies_in(w, f), bullets_in(w, f));
}

/// The record never falls, whatever frames come.
pub proof fn lemma_high_score_never_falls(w: WorldView, frames: Seq<Frame>)
    ensures
        after_frames(w, frames).high_score >= w.high_score,
    decreases frames.len(),
{
    if frames.len() > 0 {
        lemma_high_score_never_falls(w, frames.drop_last());
    }
}

/// During a run the score never falls, and it never passes the record.
pub proof fn lemma_score_in_play(w: WorldView, f: Frame)
    requires
        w.wf(),
        w.state == GameState::Playing,
    ensures
        after_frame(w, f).score >= w.score,
        after_frame(w, f).score <= after_frame(w, f).high_score,
{
    lemma_total_points_not_negative(blasts_in(w, f));
}

/// A record is written exactly when a run ends with the score at the
/// record, and what is written is that record.
pub proof fn lemma_record_saved_on_tie(w: WorldView, f: Frame)
    ensures
        record_to_save(w, f) is Some <==> (w.state == GameState::Playing && after_frame(
            w,
            f,
        ).state == GameState::GameOver && w.score == w.high_score),
        record_to_save(w, f) matches Some(r) ==> r == w.high_score,
{
}

/// Every frame leaves the game in one state, and a state is only left for
/// its neighbour: the menu for play, play for a pause or the end of the
/// run, a pause for play, the end of a run for the menu.
pub proof fn lemma_one_step_at_a_time(w: WorldView, f: Frame)
    ensures
        ({
            let next = after_frame(w, f).state;
            match w.state {
                GameState::MainMenu => next == GameState::MainMenu || next == GameState::Playing,
                GameState::Playing => next == GameState::Playing || next == GameState::Paused
                    || next == GameState::GameOver,
                GameState::Paused => next == GameState::Paused || next == GameState::Playing,
                GameState::GameOver => next == GameState::GameOver || next
                    == GameState::MainMenu,
            }
        }),
        w.state == GameState::Paused ==> after_frame(w, f) == (WorldView {
            state: after_frame(w, f).state,
            ..w
        }),
{
}

} // verus!
