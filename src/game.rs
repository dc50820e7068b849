use vstd::prelude::*;

use crate::entity::{fits_i64, Entity, EntityModel, UNIT};
use crate::input::{Key, KeySet};

verus! {

/// Largest magnitude of a coordinate, size or velocity that a tick accepts;
/// it keeps every intermediate sum of a tick within `i64`.
pub const LIMIT: i64 = 1_000_000_000_000;

/// Vertical speed of a moving paddle.
pub const PADDLE_SPEED: i64 = UNIT;

/// Horizontal velocity of a freshly served ball.
pub const SERVE_DX: i64 = UNIT;

/// Vertical velocity of a freshly served ball: seven tenths of a unit per tick.
pub const SERVE_DY: i64 = 700;

/// The six entities of a match: two paddles, the ball, the playing field and
/// the two goal strips at the field's left and right edges.
#[derive(Clone, Copy, Debug)]
pub struct Game {
    pub player: Entity,
    pub enemy: Entity,
    pub ball: Entity,
    pub field: Entity,
    pub goal_player: Entity,
    pub goal_enemy: Entity,
}

/// The mathematical value of a [`Game`].
pub struct GameModel {
    pub player: EntityModel,
    pub enemy: EntityModel,
    pub ball: EntityModel,
    pub field: EntityModel,
    pub goal_player: EntityModel,
    pub goal_enemy: EntityModel,
}

impl View for Game {
    type V = GameModel;

    open spec fn view(&self) -> GameModel {
        GameModel {
            player: self.player@,
            enemy: self.enemy@,
            ball: self.ball@,
            field: self.field@,
            goal_player: self.goal_player@,
            goal_enemy: self.goal_enemy@,
        }
    }
}

/// `v` lies within `[-LIMIT, LIMIT]`.
pub open spec fn bounded(v: int) -> bool {
    -LIMIT <= v <= LIMIT
}

/// Position bounded, size positive and bounded.
pub open spec fn bounded_rect(e: EntityModel) -> bool {
    &&& bounded(e.x)
    &&& bounded(e.y)
    &&& 0 < e.width <= LIMIT
    &&& 0 < e.height <= LIMIT
}

/// A paddle lies in the field, with a positive bounded size and a bounded
/// horizontal velocity.
pub open spec fn paddle_ok(field: EntityModel, p: EntityModel) -> bool {
    &&& field.contains(p)
    &&& 0 < p.width <= LIMIT
    &&& 0 < p.height <= LIMIT
    &&& bounded(p.dx)
}

/// `v` scaled by 6/5, rounded toward zero.
pub open spec fn scaled(v: int) -> int {
    if v >= 0 {
        v * 6 / 5
    } else {
        -((-v) * 6 / 5)
    }
}

/// `|v|`.
pub open spec fn abs(v: int) -> int {
    if v >= 0 {
        v
    } else {
        -v
    }
}

/// The player's vertical velocity for the held keys: down wins over up.
pub open spec fn player_dy(keys: Set<Key>) -> int {
    if keys.contains(Key::Down) {
        PADDLE_SPEED as int
    } else if keys.contains(Key::Up) {
        -PADDLE_SPEED
    } else {
        0
    }
}

/// A step of `e`, rejected when the field would no longer contain it.
pub open spec fn clamped_step(field: EntityModel, e: EntityModel) -> EntityModel {
    if field.contains(e.stepped()) {
        e.stepped()
    } else {
        e.stepped().stepped_back()
    }
}

/// The ball put back at the field's center with the serve velocity.
pub open spec fn served(field: EntityModel, b: EntityModel) -> EntityModel {
    EntityModel {
        x: field.width / 2 - b.width / 2,
        y: field.height / 2 - b.height / 2,
        dx: SERVE_DX as int,
        dy: SERVE_DY as int,
        ..b
    }
}

impl GameModel {
    /// Everything but the ball is bounded, the paddles lie in the field, and
    /// the ball has a positive size.
    pub open spec fn wf(self) -> bool {
        &&& bounded_rect(self.field)
        &&& bounded_rect(self.goal_player)
        &&& bounded_rect(self.goal_enemy)
        &&& paddle_ok(self.field, self.player)
        &&& paddle_ok(self.field, self.enemy)
        &&& self.ball.wf()
    }

    /// The ball's position, size and velocity are small enough for a tick.
    pub open spec fn ball_in_range(self) -> bool {
        &&& bounded_rect(self.ball)
        &&& bounded(self.ball.dx)
        &&& bounded(self.ball.dy)
    }

    /// The player paddle after its move.
    pub open spec fn moved_player(self, keys: Set<Key>) -> EntityModel {
        clamped_step(self.field, self.player.with_velocity(self.player.dx, player_dy(keys)))
    }

    /// The enemy's vertical velocity: toward the ball's top edge, and none when
    /// that edge is level with the enemy's center.
    pub open spec fn enemy_dy(self) -> int {
        if 2 * self.ball.y < 2 * self.enemy.y + self.enemy.height {
            -PADDLE_SPEED
        } else if 2 * self.ball.y > 2 * self.enemy.y + self.enemy.height {
            PADDLE_SPEED as int
        } else {
            0
        }
    }

    /// The enemy paddle after its move.
    pub open spec fn moved_enemy(self) -> EntityModel {
        clamped_step(self.field, self.enemy.with_velocity(self.enemy.dx, self.enemy_dy()))
    }

    /// The moved ball meets a moved paddle.
    pub open spec fn paddle_bounce(self, keys: Set<Key>) -> bool {
        self.ball.stepped().intersects(self.moved_enemy()) || self.ball.stepped().intersects(
            self.moved_player(keys),
        )
    }

    /// The ball after its move and a paddle bounce: a bounce takes the move
    /// back, flips `dx` and scales both components by 6/5.
    pub open spec fn ball_after_paddles(self, keys: Set<Key>) -> EntityModel {
        if self.paddle_bounce(keys) {
            self.ball.stepped().stepped_back().with_velocity(
                -scaled(self.ball.dx),
                scaled(self.ball.dy),
            )
        } else {
            self.ball.stepped()
        }
    }

    /// The ball meets a goal strip after the paddle stage.
    pub open spec fn goal(self, keys: Set<Key>) -> bool {
        let b = self.ball_after_paddles(keys);
        b.intersects(self.goal_player) || b.intersects(self.goal_enemy)
    }

    /// The ball after a possible goal, which serves it again.
    pub open spec fn ball_after_goal(self, keys: Set<Key>) -> EntityModel {
        if self.goal(keys) {
            served(self.field, self.ball_after_paddles(keys))
        } else {
            self.ball_after_paddles(keys)
        }
    }

    /// The field no longer contains the ball after the goal stage.
    pub open spec fn wall_bounce(self, keys: Set<Key>) -> bool {
        !self.field.contains(self.ball_after_goal(keys))
    }

    /// The ball at the end of a tick: a wall bounce takes the last move back
    /// and flips `dy`.
    pub open spec fn moved_ball(self, keys: Set<Key>) -> EntityModel {
        let b = self.ball_after_goal(keys);
        if self.wall_bounce(keys) {
            b.stepped_back().with_velocity(b.dx, -b.dy)
        } else {
            b
        }
    }

    /// The game after one tick with `keys` held.
    pub open spec fn ticked(self, keys: Set<Key>) -> GameModel {
        GameModel {
            player: self.moved_player(keys),
            enemy: self.moved_enemy(),
            ball: self.moved_ball(keys),
            ..self
        }
    }

    /// The game after one tick for each key set of `inputs`, in order.
    pub open spec fn run(self, inputs: Seq<Set<Key>>) -> GameModel
        decreases inputs.len(),
    {
        if inputs.len() == 0 {
            self
        } else {
            self.ticked(inputs[0]).run(inputs.drop_first())
        }
    }
}

fn rescale(v: i64) -> (r: i64)
    requires
        bounded(v as int),
    ensures
        r == scaled(v as int),
{
    if v >= 0 {
        v * 6 / 5
    } else {
        -((-v) * 6 / 5)
    }
}

/// Steps `e` unless the field would then no longer contain it.
fn clamp_step(field: &Entity, e: &mut Entity)
    requires
        bounded_rect(field@),
        paddle_ok(field@, old(e)@),
        -LIMIT <= old(e).dy <= LIMIT,
    ensures
        final(e)@ == clamped_step(field@, old(e)@),
        paddle_ok(field@, final(e)@),
{
    e.step();
    if !field.contains(e) {
        e.step_back();
    }
}

impl Game {
    /// The match at its start: a 450 x 200 field, the paddles at its left and
    /// right, the ball near the middle moving right and down.
    pub fn new() -> (r: Game)
        ensures
            r@.wf(),
            r@.ball_in_range(),
            r.field@ == (EntityModel { x: 0, y: 0, dx: 0, dy: 0, width: 450 * UNIT, height: 200 * UNIT, color: [255, 255, 255, 255] }),
            r.player@ == (EntityModel { x: 10 * UNIT, y: 50 * UNIT, dx: 0, dy: 0, width: 10 * UNIT, height: 60 * UNIT, color: [255, 0, 0, 255] }),
            r.enemy@ == (EntityModel { x: 400 * UNIT, y: 50 * UNIT, dx: 0, dy: 0, width: 10 * UNIT, height: 60 * UNIT, color: [0, 0, 255, 255] }),
            r.ball@ == (EntityModel { x: 200 * UNIT, y: 100 * UNIT, dx: SERVE_DX as int, dy: SERVE_DY as int, width: 8 * UNIT, height: 8 * UNIT, color: [0, 0, 0, 255] }),
            r.goal_player@ == (EntityModel { x: 0, y: 0, dx: 0, dy: 0, width: 5 * UNIT, height: 200 * UNIT, color: [128, 128, 128, 255] }),
            r.goal_enemy@ == (EntityModel { x: 445 * UNIT, y: 0, dx: 0, dy: 0, width: 5 * UNIT, height: 200 * UNIT, color: [128, 128, 128, 255] }),
    {
        Game {
            player: Entity { x: 10 * UNIT, y: 50 * UNIT, dx: 0, dy: 0, width: 10 * UNIT, height: 60 * UNIT, color: [255, 0, 0, 255] },
            enemy: Entity { x: 400 * UNIT, y: 50 * UNIT, dx: 0, dy: 0, width: 10 * UNIT, height: 60 * UNIT, color: [0, 0, 255, 255] },
            ball: Entity { x: 200 * UNIT, y: 100 * UNIT, dx: SERVE_DX, dy: SERVE_DY, width: 8 * UNIT, height: 8 * UNIT, color: [0, 0, 0, 255] },
            field: Entity { x: 0, y: 0, dx: 0, dy: 0, width: 450 * UNIT, height: 200 * UNIT, color: [255, 255, 255, 255] },
            goal_player: Entity { x: 0, y: 0, dx: 0, dy: 0, width: 5 * UNIT, height: 200 * UNIT, color: [128, 128, 128, 255] },
            goal_enemy: Entity { x: 445 * UNIT, y: 0, dx: 0, dy: 0, width: 5 * UNIT, height: 200 * UNIT, color: [128, 128, 128, 255] },
        }
    }

    /// Whether the ball is small and slow enough for `tick`.
    pub fn ball_in_range(&self) -> (r: bool)
        ensures
            r == self@.ball_in_range(),
    {
        let b = &self.ball;
        -LIMIT <= b.x && b.x <= LIMIT && -LIMIT <= b.y && b.y <= LIMIT && 0 < b.width && b.width
            <= LIMIT && 0 < b.height && b.height <= LIMIT && -LIMIT <= b.dx && b.dx <= LIMIT
            && -LIMIT <= b.dy && b.dy <= LIMIT
    }

    /// Advances the game by one tick with `keys` held: the player moves by the
    /// keys, the enemy follows the ball, the ball moves and bounces off
    /// paddles, goals and walls.
    pub fn tick(&mut self, keys: &KeySet)
        requires
            old(self)@.wf(),
            old(self)@.ball_in_range(),
        ensures
            final(self)@ == old(self)@.ticked(keys@),
            final(self)@.wf(),
    {
        let ghost g = self@;
        // Player control: down wins over up.
        self.player.dy = 0;
        if keys.is_held(Key::Down) {
            self.player.dy = PADDLE_SPEED;
        } else if keys.is_held(Key::Up) {
            self.player.dy = -PADDLE_SPEED;
        }
        clamp_step(&self.field, &mut self.player);
        assert(self.player@ == g.moved_player(keys@));

        // Enemy control: follow the ball's top edge.
        let center2 = 2 * self.enemy.y + self.enemy.height;
        self.enemy.dy = 0;
        if 2 * self.ball.y < center2 {
            self.enemy.dy = -PADDLE_SPEED;
        } else if 2 * self.ball.y > center2 {
            self.enemy.dy = PADDLE_SPEED;
        }
        clamp_step(&self.field, &mut self.enemy);
        assert(self.enemy@ == g.moved_enemy());

        // Ball motion and paddle bounce.
        self.ball.step();
        if self.ball.intersects(&self.enemy) || self.ball.intersects(&self.player) {
            self.ball.step_back();
            self.ball.dx = -rescale(self.ball.dx);
            self.ball.dy = rescale(self.ball.dy);
        }
        assert(self.ball@ == g.ball_after_paddles(keys@));

        // Goal: serve again from the center.
        if self.ball.intersects(&self.goal_player) || self.ball.intersects(&self.goal_enemy) {
            self.ball.x = self.field.width / 2 - self.ball.width / 2;
            self.ball.y = self.field.height / 2 - self.ball.height / 2;
            self.ball.dx = SERVE_DX;
            self.ball.dy = SERVE_DY;
        }
        assert(self.ball@ == g.ball_after_goal(keys@));

        // Top and bottom walls.
        if !self.field.contains(&self.ball) {
            self.ball.step_back();
            self.ball.dy = -self.ball.dy;
        }
        assert(self@ == g.ticked(keys@));
    }

    /// Advances the game by one tick when the ball is within range for it, and
    /// otherwise leaves the game as it is; says whether it ticked.
    pub fn try_tick(&mut self, keys: &KeySet) -> (r: bool)
        requires
            old(self)@.wf(),
        ensures
            r == old(self)@.ball_in_range(),
            r ==> final(self)@ == old(self)@.ticked(keys@),
            !r ==> *final(self) == *old(self),
            final(self)@.wf(),
    {
        if self.ball_in_range() {
            self.tick(keys);
            true
        } else {
            false
        }
    }

    /// The entities to draw, back to front: field, the two goal strips, the
    /// two paddles, then the ball.
    pub fn frame(&self) -> (r: Vec<Entity>)
        ensures
            r@ == seq![self.field, self.goal_player, self.goal_enemy, self.player, self.enemy, self.ball],
    {
        let mut r: Vec<Entity> = Vec::new();
        r.push(self.field);
        r.push(self.goal_player);
        r.push(self.goal_enemy);
        r.push(self.player);
        r.push(self.enemy);
        r.push(self.ball);
        assert(r@ =~= seq![self.field, self.goal_player, self.goal_enemy, self.player, self.enemy, self.ball]);
        r
    }
}


proof fn lemma_clamped_step_stays(field: EntityModel, e: EntityModel)
    requires
        field.contains(e),
    ensures
        field.contains(clamped_step(field, e)),
        clamped_step(field, e).height == e.height,
{
}

/// A paddle that starts inside the field stays inside it over any run of
/// ticks: its top edge stays between the field's top edge and the field's
/// bottom edge less the paddle's height.
pub proof fn lemma_paddles_stay_in_field(g: GameModel, inputs: Seq<Set<Key>>)
    requires
        g.field.contains(g.player),
        g.field.contains(g.enemy),
    ensures
        g.run(inputs).field == g.field,
        g.field.y <= g.run(inputs).player.y <= g.field.y + g.field.height - g.player.height,
        g.field.y <= g.run(inputs).enemy.y <= g.field.y + g.field.height - g.enemy.height,
    decreases inputs.len(),
{
    if inputs.len() > 0 {
        let keys = inputs[0];
        lemma_clamped_step_stays(g.field, g.player.with_velocity(g.player.dx, player_dy(keys)));
        lemma_clamped_step_stays(g.field, g.enemy.with_velocity(g.enemy.dx, g.enemy_dy()));
        lemma_paddles_stay_in_field(g.ticked(keys), inputs.drop_first());
    }
}

/// Scaling by 6/5 toward zero keeps the sign and never shrinks the magnitude.
pub proof fn lemma_scaled_grows(v: int)
    ensures
        abs(scaled(v)) >= abs(v),
        v >= 0 ==> scaled(v) >= 0,
        v <= 0 ==> scaled(v) <= 0,
{
    if v >= 0 {
        assert(v * 6 / 5 >= v) by (nonlinear_arith)
            requires
                v >= 0,
        ;
    } else {
        assert((-v) * 6 / 5 >= -v) by (nonlinear_arith)
            requires
                v < 0,
        ;
    }
}

/// In a tick with a paddle bounce and no goal, the ball's velocity is scaled
/// once by 6/5 with `dx` flipped (a wall bounce in the same tick may flip
/// `dy` as well), so neither speed component shrinks.
pub proof fn lemma_paddle_bounce_speeds_up(g: GameModel, keys: Set<Key>)
    requires
        g.paddle_bounce(keys),
        !g.goal(keys),
    ensures
        g.ticked(keys).ball.dx == -scaled(g.ball.dx),
        g.ticked(keys).ball.dy == scaled(g.ball.dy) || g.ticked(keys).ball.dy == -scaled(g.ball.dy),
        abs(g.ticked(keys).ball.dx) >= abs(g.ball.dx),
        abs(g.ticked(keys).ball.dy) >= abs(g.ball.dy),
{
    lemma_scaled_grows(g.ball.dx);
    lemma_scaled_grows(g.ball.dy);
}

/// After a tick in which the ball meets a goal strip, the ball sits at the
/// field's center with the serve velocity, whatever its velocity was; this
/// holds when the field contains the served ball.
pub proof fn lemma_goal_serves_ball(g: GameModel, keys: Set<Key>)
    requires
        g.goal(keys),
        g.field.contains(served(g.field, g.ball)),
    ensures
        g.ticked(keys).ball.x == g.field.width / 2 - g.ball.width / 2,
        g.ticked(keys).ball.y == g.field.height / 2 - g.ball.height / 2,
        g.ticked(keys).ball.dx == SERVE_DX,
        g.ticked(keys).ball.dy == SERVE_DY,
{
}

/// A wall bounce flips `dy` and keeps `dx` and the magnitude of `dy`; in a
/// tick with no paddle bounce and no goal, the ball leaves it with
/// `(dx, -dy)`.
pub proof fn lemma_wall_bounce_flips_dy(g: GameModel, keys: Set<Key>)
    requires
        g.wall_bounce(keys),
    ensures
        g.ticked(keys).ball.dx == g.ball_after_goal(keys).dx,
        g.ticked(keys).ball.dy == -g.ball_after_goal(keys).dy,
        abs(g.ticked(keys).ball.dy) == abs(g.ball_after_goal(keys).dy),
        !g.paddle_bounce(keys) && !g.goal(keys) ==> g.ticked(keys).ball.dx == g.ball.dx
            && g.ticked(keys).ball.dy == -g.ball.dy,
{
}

} // verus!
