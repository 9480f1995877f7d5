//! The shipped game content: a screen-filling background, two player
//! paddles, and a bouncing ball, composed into one closed entity type.

use vstd::prelude::*;
use crate::display::{Circle, Color, Display, DrawOp, Rect, Renderable, ScreenFill, VoidDisplay};
use crate::game::{BoundingBox, BoxCollider, Collider, Entity, Scene, Update, VoidCollider, VoidUpdate};
use crate::game::clamp_position;
use crate::game::clamp_size;
use crate::input::{Input, InputMap, Key, VoidInput};

verus! {

/// How far a paddle moves per input tick, and the ball per direction unit
/// per update tick, in pixels.
pub const SPEED: i32 = 10;

/// The ball's radius in pixels.
pub const BALL_RADIUS: i32 = 10;

/// The fixed logical resolution.
pub const SCREEN_WIDTH: i32 = 1280;

/// The fixed logical resolution.
pub const SCREEN_HEIGHT: i32 = 720;

/// Which side a paddle belongs to.
#[derive(Clone, Copy, Debug, PartialEq, Eq, Structural)]
pub enum Player {
    Left,
    Right,
}

/// The backdrop: fills the screen and overrides no other capability.
#[derive(Clone, Copy, Debug, PartialEq, Eq, Structural)]
pub struct Background {}

/// A player paddle: a vertical position and a side.
#[derive(Clone, Copy, Debug, PartialEq, Eq, Structural)]
pub struct Paddle {
    pub pos: i32,
    pub player: Player,
}

impl Paddle {
    /// The paddle must keep one movement step of headroom in the i32 range.
    pub open spec fn wf(self) -> bool {
        i32::MIN + SPEED <= self.pos && self.pos <= i32::MAX - SPEED
    }

    /// The paddle's fixed column: a margin from its own screen edge.
    pub open spec fn x_spec(self) -> int {
        if self.player == Player::Left {
            50
        } else {
            SCREEN_WIDTH - 50 - 20
        }
    }

    /// The paddle's on-screen rectangle.
    pub open spec fn rect_spec(self) -> Rect {
        Rect {
            color: if self.player == Player::Left {
                Color::rgb_spec(0, 0, 255)
            } else {
                Color::rgb_spec(255, 0, 0)
            },
            x: self.x_spec() as i32,
            y: self.pos,
            width: 20,
            height: 150,
        }
    }
}

impl Input for Paddle {
    open spec fn input_wf(self) -> bool {
        self.wf()
    }

    /// W/S steer the left paddle, Up/Down the right one; each held key
    /// moves the paddle one `SPEED` step, up first.
    open spec fn input_spec(self, input: InputMap) -> Paddle {
        let up = (input.pressed(Key::W) && self.player == Player::Left) || (input.pressed(Key::Up)
            && self.player == Player::Right);
        let down = (input.pressed(Key::S) && self.player == Player::Left) || (input.pressed(
            Key::Down,
        ) && self.player == Player::Right);
        let pos1 = if up {
            self.pos - SPEED
        } else {
            self.pos as int
        };
        let pos2 = if down {
            pos1 + SPEED
        } else {
            pos1
        };
        Paddle { pos: pos2 as i32, player: self.player }
    }

    fn input(&mut self, input: &InputMap) {
        let mut pos = self.pos;
        if (input.is_scancode_pressed(Key::W) && self.player == Player::Left)
            || (input.is_scancode_pressed(Key::Up) && self.player == Player::Right) {
            pos = pos - SPEED;
        }
        if (input.is_scancode_pressed(Key::S) && self.player == Player::Left)
            || (input.is_scancode_pressed(Key::Down) && self.player == Player::Right) {
            pos = pos + SPEED;
        }
        self.pos = pos;
    }
}

impl Collider for Paddle {
    /// The paddle exposes its on-screen rectangle as its collision box.
    open spec fn collider_spec(self) -> Option<BoundingBox> {
        (BoxCollider { x: self.x_spec() as i32, y: self.pos, width: 20, height: 150 }).collider_spec()
    }

    fn collider(&self) -> (r: Option<BoundingBox>) {
        let x: i32 = if self.player == Player::Left {
            50
        } else {
            SCREEN_WIDTH - 50 - 20
        };
        (BoxCollider { x, y: self.pos, width: 20, height: 150 }).collider()
    }
}

/// The ball: a center position and a direction; it moves `SPEED` pixels per
/// direction unit each update tick, bounces off the screen edges, and flips
/// horizontally when it hits a collider.
#[derive(Clone, Copy, Debug, PartialEq, Eq)]
pub struct Ball {
    pub x: i32,
    pub y: i32,
    pub direction: (i32, i32),
}

impl Ball {
    /// Bounds that keep one movement step inside the i32 range.
    pub open spec fn wf(self) -> bool {
        &&& -33554432 <= self.x <= 33554432
        &&& -33554432 <= self.y <= 33554432
        &&& -1048576 <= self.direction.0 <= 1048576
        &&& -1048576 <= self.direction.1 <= 1048576
    }
}

/// The box an entity exposes to collision queries: only paddles expose
/// one.
pub open spec fn entity_box(e: PongEntity) -> Option<BoundingBox> {
    match e {
        PongEntity::Paddle(p) => p.collider_spec(),
        _ => None,
    }
}

/// The horizontal direction after the collision scan: starting from `d` at
/// entity `i`, the direction flips once per entity of the snapshot whose
/// collider intersects `bb`, in scene order. The scan does not exclude the
/// querying entity itself.
pub open spec fn scan_flips(snapshot: Seq<PongEntity>, bb: BoundingBox, d: int, i: int) -> int
    decreases snapshot.len() - i,
{
    if i < 0 || i >= snapshot.len() {
        d
    } else {
        let d1 = match entity_box(snapshot[i]) {
            Some(other) => if bb.intersects(other) {
                -d
            } else {
                d
            },
            None => d,
        };
        scan_flips(snapshot, bb, d1, i + 1)
    }
}

/// One update tick of the ball: move by `SPEED` per direction unit, clamp
/// against the four screen edges (flipping the matching direction axis),
/// then flip the horizontal direction once per intersecting collider in the
/// snapshot.
pub open spec fn ball_step(b: Ball, snapshot: Seq<PongEntity>) -> Ball {
    let x1 = b.x + b.direction.0 * SPEED;
    let y1 = b.y + b.direction.1 * SPEED;
    let dx0 = b.direction.0 as int;
    let dy0 = b.direction.1 as int;
    let x2 = if x1 - BALL_RADIUS < 0 && dx0 < 0 {
        BALL_RADIUS as int
    } else {
        x1
    };
    let dx1 = if x1 - BALL_RADIUS < 0 && dx0 < 0 {
        -dx0
    } else {
        dx0
    };
    let x3 = if x2 + BALL_RADIUS > SCREEN_WIDTH && dx1 > 0 {
        SCREEN_WIDTH - BALL_RADIUS
    } else {
        x2
    };
    let dx2 = if x2 + BALL_RADIUS > SCREEN_WIDTH && dx1 > 0 {
        -dx1
    } else {
        dx1
    };
    let y2 = if y1 - BALL_RADIUS < 0 && dy0 < 0 {
        BALL_RADIUS as int
    } else {
        y1
    };
    let dy1 = if y1 - BALL_RADIUS < 0 && dy0 < 0 {
        -dy0
    } else {
        dy0
    };
    let y3 = if y2 + BALL_RADIUS > SCREEN_HEIGHT && dy1 > 0 {
        SCREEN_HEIGHT - BALL_RADIUS
    } else {
        y2
    };
    let dy2 = if y2 + BALL_RADIUS > SCREEN_HEIGHT && dy1 > 0 {
        -dy1
    } else {
        dy1
    };
    let bb = BoundingBox {
        x: clamp_position(x3 - BALL_RADIUS) as i32,
        y: clamp_position(y3 - BALL_RADIUS) as i32,
        width: clamp_size(2 * BALL_RADIUS) as u32,
        height: clamp_size(2 * BALL_RADIUS) as u32,
    };
    let dx3 = scan_flips(snapshot, bb, dx2, 0);
    Ball { x: x3 as i32, y: y3 as i32, direction: (dx3 as i32, dy2 as i32) }
}

impl Update<PongEntity> for Ball {
    open spec fn update_wf(self) -> bool {
        self.wf()
    }

    open spec fn update_spec(self, snapshot: Seq<PongEntity>) -> Ball {
        ball_step(self, snapshot)
    }

    fn update(&mut self, scene: &Scene<PongEntity>) {
        let ghost snap = scene@;
        let mut x = self.x;
        let mut y = self.y;
        let mut dx = self.direction.0;
        let mut dy = self.direction.1;
        x = x + dx * SPEED;
        y = y + dy * SPEED;
        if x - BALL_RADIUS < 0 && dx < 0 {
            x = BALL_RADIUS;
            dx = -dx;
        }
        if x + BALL_RADIUS > SCREEN_WIDTH && dx > 0 {
            x = SCREEN_WIDTH - BALL_RADIUS;
            dx = -dx;
        }
        if y - BALL_RADIUS < 0 && dy < 0 {
            y = BALL_RADIUS;
            dy = -dy;
        }
        if y + BALL_RADIUS > SCREEN_HEIGHT && dy > 0 {
            y = SCREEN_HEIGHT - BALL_RADIUS;
            dy = -dy;
        }
        let bb = BoundingBox::new(x - BALL_RADIUS, y - BALL_RADIUS, 2 * BALL_RADIUS as u32,
            2 * BALL_RADIUS as u32);
        let ghost dxm = dx as int;
        let ghost xm = x as int;
        let ghost ym = y as int;
        let ghost dym = dy as int;
        let mut i: usize = 0;
        while i < scene.entities.len()
            invariant
                i <= scene.entities.len(),
                scene@ == snap,
                x == xm,
                y == ym,
                dy == dym,
                -1048576 <= dx <= 1048576,
                scan_flips(snap, bb, dx as int, i as int) == scan_flips(snap, bb, dxm, 0),
            decreases scene.entities.len() - i,
        {
            let ghost i0 = i as int;
            let ghost dx_prev = dx as int;
            match scene.entities[i].collider() {
                Some(other) => {
                    if bb.has_intersection(&other) {
                        dx = -dx;
                    }
                },
                None => {},
            }
            i = i + 1;
            proof {
                assert(scan_flips(snap, bb, dx_prev, i0) == scan_flips(snap, bb, dx as int, i0
                    + 1));
            }
        }
        self.x = x;
        self.y = y;
        self.direction = (dx, dy);
        proof {
            assert(scan_flips(snap, bb, dx as int, i as int) == dx as int);
            assert(*self == ball_step(*old(self), snap));
        }
    }
}

/// The closed sum of the game's entity kinds: the scene holds values of
/// this type, and each variant provides its own capability set.
#[derive(Clone, Copy, Debug, PartialEq, Eq)]
pub enum PongEntity {
    Background(Background),
    Paddle(Paddle),
    Ball(Ball),
}

impl Entity for PongEntity {
    open spec fn wf(self) -> bool {
        match self {
            PongEntity::Background(_) => true,
            PongEntity::Paddle(p) => p.wf(),
            PongEntity::Ball(b) => b.wf(),
        }
    }

    /// The background fills the screen yellow; a paddle is a blue (left) or
    /// red (right) rectangle at its column; the ball is a filled green
    /// circle.
    open spec fn display_spec(self) -> Renderable {
        match self {
            PongEntity::Background(_) => Renderable::Fill(
                ScreenFill { color: Color::rgb_spec(255, 255, 0) },
            ),
            PongEntity::Paddle(p) => Renderable::Rect(p.rect_spec()),
            PongEntity::Ball(b) => Renderable::Circle(
                Circle {
                    x: b.x,
                    y: b.y,
                    radius: BALL_RADIUS as u32,
                    filled: true,
                    color: Color::rgb_spec(0, 255, 0),
                },
            ),
        }
    }

    /// Only paddles handle input; the other entities are no-ops there.
    open spec fn input_spec(self, input: InputMap) -> PongEntity {
        match self {
            PongEntity::Paddle(p) => PongEntity::Paddle(p.input_spec(input)),
            _ => self,
        }
    }

    /// Only the ball updates; the other entities are no-ops there.
    open spec fn update_spec(self, snapshot: Seq<PongEntity>) -> PongEntity {
        match self {
            PongEntity::Ball(b) => PongEntity::Ball(b.update_spec(snapshot)),
            _ => self,
        }
    }

    /// Only paddles expose a collider; the other entities expose none.
    open spec fn collider_spec(self) -> Option<BoundingBox> {
        entity_box(self)
    }

    fn display(&self) -> (r: Renderable) {
        match self {
            PongEntity::Background(_) => Renderable::Fill(
                ScreenFill { color: Color::rgb(255, 255, 0) },
            ),
            PongEntity::Paddle(p) => {
                let color = if p.player == Player::Left {
                    Color::rgb(0, 0, 255)
                } else {
                    Color::rgb(255, 0, 0)
                };
                let x: i32 = if p.player == Player::Left {
                    50
                } else {
                    SCREEN_WIDTH - 50 - 20
                };
                Renderable::Rect(Rect { x, y: p.pos, width: 20, height: 150, color })
            },
            PongEntity::Ball(b) => Renderable::Circle(
                Circle {
                    x: b.x,
                    y: b.y,
                    radius: BALL_RADIUS as u32,
                    filled: true,
                    color: Color::rgb(0, 255, 0),
                },
            ),
        }
    }

    fn input(&mut self, input: &InputMap) {
        match *self {
            PongEntity::Paddle(p0) => {
                let mut p = p0;
                p.input(input);
                *self = PongEntity::Paddle(p);
            },
            _ => {},
        }
    }

    fn update(&mut self, scene: &Scene<PongEntity>) {
        match *self {
            PongEntity::Ball(b0) => {
                let mut b = b0;
                b.update(scene);
                *self = PongEntity::Ball(b);
            },
            _ => {},
        }
    }

    fn collider(&self) -> (r: Option<BoundingBox>) {
        match self {
            PongEntity::Paddle(p) => {
                let r = p.collider();
                proof {
                    assert(*self == PongEntity::Paddle(*p));
                    assert(self.collider_spec() == p.collider_spec());
                }
                r
            },
            _ => None,
        }
    }

    fn check_wf(&self) -> (b: bool) {
        match self {
            PongEntity::Background(_) => true,
            PongEntity::Paddle(p) => i32::MIN + SPEED <= p.pos && p.pos <= i32::MAX - SPEED,
            PongEntity::Ball(b) => -33554432 <= b.x && b.x <= 33554432 && -33554432 <= b.y
                && b.y <= 33554432 && -1048576 <= b.direction.0 && b.direction.0 <= 1048576
                && -1048576 <= b.direction.1 && b.direction.1 <= 1048576,
        }
    }
}

/// The standard world: the background first, then the two paddles, then the
/// ball in the screen center moving down-right.
pub fn initial_scene() -> (s: Scene<PongEntity>)
    ensures
        s@.len() == 4,
        s@[0] == PongEntity::Background(Background {}),
        s@[1] == (PongEntity::Paddle(Paddle { player: Player::Left, pos: 300 })),
        s@[2] == (PongEntity::Paddle(Paddle { player: Player::Right, pos: 300 })),
        s@[3] == (PongEntity::Ball(Ball { x: 640, y: 360, direction: (1, 1) })),
        s.wf(),
{
    let mut world: Scene<PongEntity> = Scene::new();
    world.add(PongEntity::Background(Background {}));
    world.add(PongEntity::Paddle(Paddle { player: Player::Left, pos: 300 }));
    world.add(PongEntity::Paddle(Paddle { player: Player::Right, pos: 300 }));
    world.add(PongEntity::Ball(Ball { x: SCREEN_WIDTH / 2, y: SCREEN_HEIGHT / 2, direction: (1, 1) }));
    world
}

/// Entities that do not override a capability are observable no-ops there:
/// the background ignores input and updates and exposes no collider, the
/// ball ignores input and exposes no collider, paddles ignore updates, and
/// the void capabilities change nothing, draw nothing and expose nothing.
pub proof fn lemma_default_capabilities(
    e: PongEntity,
    input: InputMap,
    snapshot: Seq<PongEntity>,
    vd: VoidDisplay,
    vi: VoidInput,
    vu: VoidUpdate,
    vc: VoidCollider,
)
    ensures
        e is Background ==> e.input_spec(input) == e && e.update_spec(snapshot) == e
            && e.collider_spec() is None,
        e is Ball ==> e.input_spec(input) == e && e.collider_spec() is None,
        e is Paddle ==> e.update_spec(snapshot) == e,
        vd.ops_spec() == Seq::<DrawOp>::empty(),
        vi.input_spec(input) == vi,
        Update::<PongEntity>::update_spec(vu, snapshot) == vu,
        vc.collider_spec() is None,
{
}

} // verus!
